//! Which tensors a model is loaded from, and the bytes that each of them becomes.

use vstd::prelude::*;

use crate::bytes::{le16, le32};
use crate::engine_error::{EngineError, ErrorV};
use crate::float_bits::from_half;
use crate::gemm::GemmPlan;
use crate::math::wide_product;
use crate::model::{LayerWeights, LlamaConfig, StepBuffers};
use crate::plans::layer_plans;
use crate::text::decimal;
use crate::weights::{
    check_matrix, check_vector, dtype_error, elemsize, expand_f16_to_f32, half_at, join_qkv,
    joined_rows, layer_tensor, matrix_text, row_elems, rows_there, to_f16_rm, to_f16_rows,
    to_f16_vec, transposes, vector_text, StDtype, TensorView,
};

verus! {

/// The order in which a tensor's elements go to the device.
#[derive(Debug, Clone, Copy, PartialEq, Eq, Structural)]
pub enum WeightForm {
    /// A matrix, transposed: the right operand of a product.
    Transposed,
    /// A matrix in the order it has: rows that are gathered.
    Rows,
    Vector,
}

/// A tensor that is asked for; a vector has one column.
#[derive(Debug)]
pub struct WeightReq {
    pub name: String,
    pub form: WeightForm,
    pub rows: usize,
    pub cols: usize,
}

/// The mathematical value of a request.
pub struct WeightReqV {
    pub name: Seq<char>,
    pub form: WeightForm,
    pub rows: usize,
    pub cols: usize,
}

impl View for WeightReq {
    type V = WeightReqV;

    open spec fn view(&self) -> WeightReqV {
        WeightReqV { name: self.name@, form: self.form, rows: self.rows, cols: self.cols }
    }
}

/// The tensors outside the layers.
#[derive(Debug)]
pub struct ModelReqs {
    pub embed: WeightReq,
    pub lm_head: WeightReq,
    pub final_norm: WeightReq,
}

/// The tensors of a layer.
#[derive(Debug)]
pub struct LayerReqs {
    pub attn_norm: WeightReq,
    pub q_proj: WeightReq,
    pub k_proj: WeightReq,
    pub v_proj: WeightReq,
    pub o_proj: WeightReq,
    pub q_norm: Option<WeightReq>,
    pub k_norm: Option<WeightReq>,
    pub ffn_norm: WeightReq,
    pub gate_proj: WeightReq,
    pub up_proj: WeightReq,
    pub down_proj: WeightReq,
}

/// The tensors outside the layers.
pub fn model_reqs(cfg: &LlamaConfig) -> (r: ModelReqs)
    ensures
        r.embed@ == (WeightReqV {
            name: "model.embed_tokens.weight"@,
            form: WeightForm::Rows,
            rows: cfg.vocab_size,
            cols: cfg.hidden_size,
        }),
        r.lm_head@ == (WeightReqV {
            name: "lm_head.weight"@,
            form: WeightForm::Transposed,
            rows: cfg.vocab_size,
            cols: cfg.hidden_size,
        }),
        r.final_norm@ == (WeightReqV {
            name: "model.norm.weight"@,
            form: WeightForm::Vector,
            rows: cfg.hidden_size,
            cols: 1,
        }),
{
    let (v, h) = (cfg.vocab_size, cfg.hidden_size);
    ModelReqs {
        embed: WeightReq {
            name: "model.embed_tokens.weight".to_owned(),
            form: WeightForm::Rows,
            rows: v,
            cols: h,
        },
        lm_head: WeightReq {
            name: "lm_head.weight".to_owned(),
            form: WeightForm::Transposed,
            rows: v,
            cols: h,
        },
        final_norm: WeightReq {
            name: "model.norm.weight".to_owned(),
            form: WeightForm::Vector,
            rows: h,
            cols: 1,
        },
    }
}

/// The request for a projection of a layer, from `cols` to `rows` elements.
pub open spec fn matrix_req(i: usize, part: Seq<char>, rows: int, cols: int) -> WeightReqV {
    WeightReqV {
        name: "model.layers."@ + decimal(i as nat) + "."@ + part,
        form: WeightForm::Transposed,
        rows: rows as usize,
        cols: cols as usize,
    }
}

/// The request for a vector of a layer.
pub open spec fn vector_req(i: usize, part: Seq<char>, d: int) -> WeightReqV {
    WeightReqV {
        name: "model.layers."@ + decimal(i as nat) + "."@ + part,
        form: WeightForm::Vector,
        rows: d as usize,
        cols: 1,
    }
}

fn matrix(i: usize, part: &str, rows: usize, cols: usize) -> (r: WeightReq)
    ensures
        r@ == matrix_req(i, part@, rows as int, cols as int),
{
    WeightReq { name: layer_tensor(i, part), form: WeightForm::Transposed, rows, cols }
}

fn vector(i: usize, part: &str, d: usize) -> (r: WeightReq)
    ensures
        r@ == vector_req(i, part@, d as int),
{
    WeightReq { name: layer_tensor(i, part), form: WeightForm::Vector, rows: d, cols: 1 }
}

/// Whether these are the tensors of layer `i`: those of the head norms only where the model
/// has them.
pub open spec fn asks_for(r: LayerReqs, cfg: LlamaConfig, i: usize) -> bool {
    let (h, f) = (cfg.hidden_size as int, cfg.ffn_hidden as int);
    let d = cfg.head_dim as int;
    &&& r.attn_norm@ == vector_req(i, "input_layernorm.weight"@, h)
    &&& r.q_proj@ == matrix_req(i, "self_attn.q_proj.weight"@, cfg.nqk(), h)
    &&& r.k_proj@ == matrix_req(i, "self_attn.k_proj.weight"@, cfg.kvk(), h)
    &&& r.v_proj@ == matrix_req(i, "self_attn.v_proj.weight"@, cfg.kvk(), h)
    &&& r.o_proj@ == matrix_req(i, "self_attn.o_proj.weight"@, h, cfg.nqk())
    &&& r.ffn_norm@ == vector_req(i, "post_attention_layernorm.weight"@, h)
    &&& r.gate_proj@ == matrix_req(i, "mlp.gate_proj.weight"@, f, h)
    &&& r.up_proj@ == matrix_req(i, "mlp.up_proj.weight"@, f, h)
    &&& r.down_proj@ == matrix_req(i, "mlp.down_proj.weight"@, h, f)
    &&& r.q_norm is Some <==> cfg.head_norm
    &&& r.k_norm is Some <==> cfg.head_norm
    &&& r.q_norm is Some ==> r.q_norm->0@ == vector_req(i, "self_attn.q_norm.weight"@, d)
    &&& r.k_norm is Some ==> r.k_norm->0@ == vector_req(i, "self_attn.k_norm.weight"@, d)
}

/// The tensors of layer `i`; those of the head norms only where the model has them.
pub fn layer_reqs(cfg: &LlamaConfig, i: usize) -> (r: LayerReqs)
    requires
        cfg.wf(),
    ensures
        asks_for(r, *cfg, i),
{
    let w = cfg.widths();
    let (q_norm, k_norm) = if cfg.head_norm {
        (
            Some(vector(i, "self_attn.q_norm.weight", cfg.head_dim)),
            Some(vector(i, "self_attn.k_norm.weight", cfg.head_dim)),
        )
    } else {
        (None, None)
    };
    LayerReqs {
        attn_norm: vector(i, "input_layernorm.weight", w.h),
        q_proj: matrix(i, "self_attn.q_proj.weight", w.nqk, w.h),
        k_proj: matrix(i, "self_attn.k_proj.weight", w.kvk, w.h),
        v_proj: matrix(i, "self_attn.v_proj.weight", w.kvk, w.h),
        o_proj: matrix(i, "self_attn.o_proj.weight", w.h, w.nqk),
        q_norm,
        k_norm,
        ffn_norm: vector(i, "post_attention_layernorm.weight", w.h),
        gate_proj: matrix(i, "mlp.gate_proj.weight", w.ffn, w.h),
        up_proj: matrix(i, "mlp.up_proj.weight", w.ffn, w.h),
        down_proj: matrix(i, "mlp.down_proj.weight", w.h, w.ffn),
    }
}

impl WeightReqV {
    /// The shape that is asked for.
    pub open spec fn shape(self) -> Seq<u64> {
        if self.form == WeightForm::Vector {
            seq![self.rows as u64]
        } else {
            seq![self.rows as u64, self.cols as u64]
        }
    }

    /// Elements of the tensor.
    pub open spec fn elems(self) -> int {
        if self.form == WeightForm::Vector {
            self.rows as int
        } else {
            self.rows * self.cols
        }
    }

    /// The error of a tensor of another shape.
    pub open spec fn shape_error(self, shape: Seq<u64>) -> ErrorV {
        if self.form == WeightForm::Vector {
            ErrorV::WeightShape(vector_text(self.name, self.rows as nat, shape))
        } else {
            ErrorV::WeightShape(matrix_text(self.name, self.rows as nat, self.cols as nat, shape))
        }
    }

    /// Whether a tensor of the shape that is asked for has the bytes that its
    /// conversion reads, and the result can be held.
    pub open spec fn backed(self, v: TensorView) -> bool {
        &&& self.elems() * 4 <= usize::MAX
        &&& if self.form == WeightForm::Vector {
            match v.dtype {
                StDtype::F16 => v.bytes@.len() == self.rows * 2,
                StDtype::Other(_) => true,
                _ => row_elems(v.dtype, v.bytes@.len()) <= self.rows,
            }
        } else {
            rows_there(v.dtype, v.bytes@.len(), self.rows as int, self.cols as int)
        }
    }

    /// Element `j` of what goes to the device, as an `f16`.
    pub open spec fn half(self, v: TensorView, j: int) -> u16 {
        match self.form {
            WeightForm::Transposed => half_at(
                v.dtype,
                v.bytes@,
                j % self.rows as int * self.cols + j / self.rows as int,
            ),
            WeightForm::Rows => half_at(v.dtype, v.bytes@, j),
            WeightForm::Vector => if j < row_elems(v.dtype, v.bytes@.len()) {
                half_at(v.dtype, v.bytes@, j)
            } else {
                0
            },
        }
    }

    /// Whether bytes hold the elements as `f16`.
    pub open spec fn is_half(self, v: TensorView, w: Seq<u8>) -> bool {
        &&& w.len() == self.elems() * 2
        &&& forall|j: int| 0 <= j < self.elems() ==> #[trigger] le16(w, j * 2) == self.half(v, j)
    }

    /// Whether bytes hold the elements as `f32` of the same values.
    pub open spec fn is_single(self, v: TensorView, w: Seq<u8>) -> bool {
        &&& w.len() == self.elems() * 4
        &&& forall|j: int|
            0 <= j < self.elems() ==> #[trigger] le32(w, j * 4) == from_half(self.half(v, j))
    }
}

proof fn lemma_elems(rows: usize, cols: usize)
    ensures
        0 <= rows * cols,
{
    assert(0 <= rows * cols) by (nonlinear_arith)
        requires
            rows >= 0,
            cols >= 0,
    ;
}

/// Place `j` of a transposed matrix belongs to row `j % rows` and column `j / rows`.
proof fn lemma_place(j: int, rows: int, cols: int)
    requires
        0 <= j < rows * cols,
        rows >= 0,
        cols >= 0,
    ensures
        0 <= j % rows < rows,
        0 <= j / rows < cols,
        (j / rows) * rows + j % rows == j,
{
    assert(rows > 0) by (nonlinear_arith)
        requires
            0 <= j < rows * cols,
            rows >= 0,
            cols >= 0,
    ;
    vstd::arithmetic::div_mod::lemma_fundamental_div_mod(j, rows);
    assert(rows * (j / rows) == (j / rows) * rows) by (nonlinear_arith);
    assert(j / rows < cols) by (nonlinear_arith)
        requires
            rows > 0,
            rows * (j / rows) + j % rows == j,
            0 <= j % rows,
            j < rows * cols,
    ;
    assert(0 <= j / rows) by (nonlinear_arith)
        requires
            rows > 0,
            0 <= j,
    ;
}

impl WeightReq {
    /// Checks the shape of a tensor.
    pub fn check_shape(&self, v: &TensorView) -> (r: Result<(), EngineError>)
        ensures
            r is Ok <==> v.shape@ == self@.shape(),
            r is Err ==> r->Err_0@ == self@.shape_error(v.shape@),
    {
        match self.form {
            WeightForm::Vector => check_vector(self.name.as_str(), &v.shape, self.rows),
            _ => check_matrix(self.name.as_str(), &v.shape, self.rows, self.cols),
        }
    }

    /// Whether a tensor has the bytes that its conversion reads.
    pub fn is_backed(&self, v: &TensorView) -> (b: bool)
        ensures
            b == self@.backed(*v),
    {
        proof {
            lemma_elems(self.rows, self.cols);
        }
        let max: u128 = usize::MAX as u128;
        let len: usize = v.bytes.len();
        let size: usize = elemsize(&v.dtype);
        if let WeightForm::Vector = self.form {
            if self.rows as u128 * 4 > max {
                return false;
            }
            return match &v.dtype {
                StDtype::F16 => len == self.rows * 2,
                StDtype::Other(_) => true,
                _ => len / size <= self.rows,
            };
        }
        let n: u128 = wide_product(self.rows, self.cols);
        if n > max / 4 {
            return false;
        }
        match &v.dtype {
            StDtype::Other(_) => self.rows == 0 || self.cols as u128 * 2 <= len as u128,
            StDtype::F32 => n * 4 <= len as u128,
            _ => n * 2 <= len as u128,
        }
    }

    /// The elements as `f16`.
    fn halves(&self, v: &TensorView) -> (r: Result<Vec<u8>, EngineError>)
        requires
            v.shape@ == self@.shape(),
            self@.backed(*v),
            self.rows > 0,
        ensures
            r is Err <==> dtype_error(v.dtype) is Some,
            r is Err ==> dtype_error(v.dtype) == Some(r->Err_0@),
            r is Ok ==> self@.is_half(*v, r->Ok_0@),
    {
        proof {
            lemma_elems(self.rows, self.cols);
        }
        match self.form {
            WeightForm::Vector => {
                let r = to_f16_vec(v);
                proof {
                    if r is Ok {
                        let w = r->Ok_0@;
                        let n = row_elems(v.dtype, v.bytes@.len()) as int;
                        assert forall|j: int| 0 <= j < self@.elems() implies #[trigger] le16(
                            w,
                            j * 2,
                        ) == self@.half(*v, j) by {
                            if j >= n {
                                assert(w[j * 2] == 0 && w[j * 2 + 1] == 0);
                            }
                        }
                    }
                }
                r
            },
            WeightForm::Rows => to_f16_rows(v),
            WeightForm::Transposed => {
                let r = to_f16_rm(v, self.rows, self.cols);
                proof {
                    if r is Ok {
                        let w = r->Ok_0@;
                        let (a, b) = (self.rows as int, self.cols as int);
                        assert forall|j: int| 0 <= j < self@.elems() implies #[trigger] le16(
                            w,
                            j * 2,
                        ) == self@.half(*v, j) by {
                            lemma_place(j, a, b);
                            assert(transposes(w, v.dtype, v.bytes@, a, b, j % a, j / a));
                        }
                    }
                }
                r
            },
        }
    }

    /// The bytes that go to the device: the elements as `f16`, on the `f32` tier as
    /// `f32` of the same values.  A tensor of another shape is refused first, then
    /// one of another element type.
    pub fn device_bytes(&self, v: &TensorView, parity_f32: bool) -> (r: Result<
        Vec<u8>,
        EngineError,
    >)
        requires
            v.shape@ == self@.shape() ==> self@.backed(*v),
            self.rows > 0,
        ensures
            r is Err <==> v.shape@ != self@.shape() || dtype_error(v.dtype) is Some,
            v.shape@ != self@.shape() ==> r->Err_0@ == self@.shape_error(v.shape@),
            r is Err && v.shape@ == self@.shape() ==> dtype_error(v.dtype) == Some(r->Err_0@),
            r is Ok && !parity_f32 ==> self@.is_half(*v, r->Ok_0@),
            r is Ok && parity_f32 ==> self@.is_single(*v, r->Ok_0@),
    {
        match self.check_shape(v) {
            Ok(_) => {},
            Err(e) => {
                return Err(e);
            },
        }
        match self.halves(v) {
            Ok(w16) => {
                if !parity_f32 {
                    return Ok(w16);
                }
                let w = expand_f16_to_f32(&w16);
                proof {
                    assert forall|j: int| 0 <= j < self@.elems() implies #[trigger] le32(w@, j * 4)
                        == from_half(self@.half(*v, j)) by {
                        assert(le16(w16@, j * 2) == self@.half(*v, j));
                    }
                }
                Ok(w)
            },
            Err(e) => Err(e),
        }
    }
}

/// Whether joined bytes hold three projections row by row, each transposed.
pub open spec fn joins(
    w: Seq<u8>,
    r: LayerReqs,
    q: TensorView,
    k: TensorView,
    v: TensorView,
) -> bool {
    exists|a: Seq<u8>, b: Seq<u8>, c: Seq<u8>|
        #![trigger r.q_proj@.is_half(q, a), r.k_proj@.is_half(k, b), r.v_proj@.is_half(v, c)]
        {
            &&& r.q_proj@.is_half(q, a)
            &&& r.k_proj@.is_half(k, b)
            &&& r.v_proj@.is_half(v, c)
            &&& w == joined_rows(
                a,
                b,
                c,
                r.q_proj.rows * 2,
                r.k_proj.rows * 2,
                r.q_proj.cols as nat,
            )
        }
}

impl LayerReqs {
    /// The joined projections of a layer; the first of the three that is refused
    /// says why.
    pub fn joined_bytes(&self, q: &TensorView, k: &TensorView, v: &TensorView) -> (r: Result<
        Vec<u8>,
        EngineError,
    >)
        requires
            self.q_proj.form == WeightForm::Transposed,
            self.k_proj.form == WeightForm::Transposed,
            self.v_proj.form == WeightForm::Transposed,
            self.v_proj.rows == self.k_proj.rows,
            self.q_proj.cols == self.k_proj.cols,
            self.v_proj.cols == self.k_proj.cols,
            self.q_proj.rows > 0,
            self.k_proj.rows > 0,
            self.q_proj.cols > 0,
            q.shape@ == self.q_proj@.shape() ==> self.q_proj@.backed(*q),
            k.shape@ == self.k_proj@.shape() ==> self.k_proj@.backed(*k),
            v.shape@ == self.v_proj@.shape() ==> self.v_proj@.backed(*v),
        ensures
            ({
                let (a, b, c) = (
                    refusal(self.q_proj@, *q),
                    refusal(self.k_proj@, *k),
                    refusal(self.v_proj@, *v),
                );
                let e = if a is Some {
                    a
                } else if b is Some {
                    b
                } else {
                    c
                };
                &&& r is Err <==> e is Some
                &&& r is Err ==> e == Some(r->Err_0@)
            }),
            r is Ok ==> joins(r->Ok_0@, *self, *q, *k, *v),
    {
        let q16 = match self.q_proj.device_bytes(q, false) {
            Ok(w) => w,
            Err(e) => {
                return Err(e);
            },
        };
        let k16 = match self.k_proj.device_bytes(k, false) {
            Ok(w) => w,
            Err(e) => {
                return Err(e);
            },
        };
        let v16 = match self.v_proj.device_bytes(v, false) {
            Ok(w) => w,
            Err(e) => {
                return Err(e);
            },
        };
        let (h, nqk, kvk) = (self.q_proj.cols, self.q_proj.rows, self.k_proj.rows);
        proof {
            lemma_row_bytes(nqk as int, h as int);
            lemma_row_bytes(kvk as int, h as int);
        }
        let w = join_qkv(&q16, &k16, &v16, h, nqk, kvk);
        proof {
            assert(self.q_proj@.is_half(*q, q16@) && self.k_proj@.is_half(*k, k16@)
                && self.v_proj@.is_half(*v, v16@));
        }
        Ok(w)
    }
}

/// Why a tensor is refused, where it is: for its shape, else for its element type.
pub open spec fn refusal(r: WeightReqV, v: TensorView) -> Option<ErrorV> {
    if v.shape@ != r.shape() {
        Some(r.shape_error(v.shape@))
    } else {
        dtype_error(v.dtype)
    }
}

/// The weights of both tiers have the same values: what the `f32` tier loads are the
/// `f16` weights, widened.
pub proof fn tiers_hold_the_same_values(
    r: WeightReqV,
    v: TensorView,
    half: Seq<u8>,
    single: Seq<u8>,
    j: int,
)
    requires
        r.is_half(v, half),
        r.is_single(v, single),
        0 <= j < r.elems(),
    ensures
        le32(single, j * 4) == from_half(le16(half, j * 2)),
{
    assert(le16(half, j * 2) == r.half(v, j));
    assert(le32(single, j * 4) == from_half(r.half(v, j)));
}

/// A projection is stored by its input: the weight from input `i` to output `o`, which
/// stands in row `o` of the tensor, is element `o` of row `i` on the device.
pub proof fn projections_are_stored_by_input(
    r: WeightReqV,
    v: TensorView,
    w: Seq<u8>,
    o: int,
    i: int,
)
    requires
        r.form == WeightForm::Transposed,
        r.is_half(v, w),
        0 <= o < r.rows,
        0 <= i < r.cols,
    ensures
        le16(w, (i * r.rows + o) * 2) == half_at(v.dtype, v.bytes@, o * r.cols + i),
{
    let (a, b) = (r.rows as int, r.cols as int);
    let j = i * a + o;
    assert(0 <= j < a * b) by (nonlinear_arith)
        requires
            j == i * a + o,
            0 <= o < a,
            0 <= i < b,
    ;
    vstd::arithmetic::div_mod::lemma_fundamental_div_mod_converse(j, a, i, o);
    assert(le16(w, j * 2) == r.half(v, j));
}

proof fn lemma_row_bytes(n: int, h: int)
    requires
        n >= 0,
        h > 0,
    ensures
        h * (n * 2) == n * h * 2,
        n <= n * h,
{
    assert(h * (n * 2) == n * h * 2) by (nonlinear_arith);
    assert(n <= n * h) by (nonlinear_arith)
        requires
            n >= 0,
            h > 0,
    ;
}

/// Whether a product reads what a projection asks for: a term for every input, and a column
/// for every output.
pub open spec fn reads(p: GemmPlan, r: WeightReqV) -> bool {
    &&& r.form == WeightForm::Transposed
    &&& p.n == r.rows
    &&& p.k == r.cols
}

/// Every projection of a layer is asked for in the extents that its product reads, on
/// either tier, and every norm in those of the rows or heads that it norms.
pub proof fn products_read_what_is_asked_for(
    r: LayerReqs,
    cfg: LlamaConfig,
    i: usize,
    b: StepBuffers,
    w: LayerWeights,
    parity_f32: bool,
)
    requires
        cfg.wf(),
        asks_for(r, cfg, i),
    ensures
        ({
            let p = layer_plans(cfg, b, w, parity_f32);
            &&& reads(p.q, r.q_proj@) && p.q.n == cfg.q_heads * cfg.head_dim
            &&& reads(p.k, r.k_proj@) && p.k.n == cfg.kv_heads * cfg.head_dim
            &&& reads(p.v, r.v_proj@) && p.v.n == p.k.n
            &&& reads(p.o, r.o_proj@) && p.o.n == cfg.hidden_size && p.o.k == p.q.n
            &&& reads(p.gate, r.gate_proj@) && p.gate.n == cfg.ffn_hidden
            &&& reads(p.up, r.up_proj@) && p.up.n == p.gate.n
            &&& reads(p.down, r.down_proj@) && p.down.n == cfg.hidden_size && p.down.k == p.gate.n
            &&& p.q.k == cfg.hidden_size && p.k.k == p.q.k && p.v.k == p.q.k
            &&& p.gate.k == p.q.k && p.up.k == p.q.k
            &&& r.attn_norm@.form == WeightForm::Vector && r.attn_norm@.rows == p.q.k
            &&& r.ffn_norm@.form == WeightForm::Vector && r.ffn_norm@.rows == p.gate.k
            &&& cfg.head_norm ==> r.q_norm is Some && r.q_norm->0@.rows * cfg.q_heads == p.q.n
            &&& cfg.head_norm ==> r.k_norm is Some && r.k_norm->0@.rows * cfg.kv_heads == p.k.n
        }),
{
    cfg.lemma_heads();
    assert(cfg.q_heads * cfg.head_dim == cfg.head_dim * cfg.q_heads) by (nonlinear_arith);
    assert(cfg.kv_heads * cfg.head_dim == cfg.head_dim * cfg.kv_heads) by (nonlinear_arith);
}

} // verus!
