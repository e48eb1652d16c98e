//! CUDA decode engine: the decisions, layouts and launch sequences of an LLM
//! inference engine, as verified functions from plain values to plain values.
//!
//! Device memory is named by address (`u64`), kernels by symbol, and `f32`
//! scalars by their bit patterns.  Nothing here talks to a device: a function
//! computes what is to be launched, copied or allocated, and the application
//! around the library performs it and hands the outcome back.

pub mod arch;
pub mod attention;
pub mod batch;
pub mod batch_kernels;
pub mod batch_law;
pub mod batch_step;
pub mod buffer;
pub mod buffer_check;
pub mod bytes;
pub mod copies;
pub mod decl;
pub mod decl_build;
pub mod decl_fused;
pub mod decl_split;
pub mod decode;
pub mod dense;
pub mod dequant;
pub mod device_info;
pub mod diff;
pub mod engine;
pub mod engine_error;
pub mod engine_law;
pub mod env;
pub mod error;
pub mod extents;
pub mod float_bits;
pub mod float_law;
pub mod fmha;
pub mod fmha_law;
pub mod fused;
pub mod fused_law;
pub mod fused_step;
pub mod gemm;
pub mod gemm_law;
pub mod generate;
pub mod graph;
pub mod graph_state;
pub mod launch;
pub mod launch_law;
pub mod layer_fused;
pub mod load;
pub mod marks_law;
pub mod math;
pub mod meaning;
pub mod model;
pub mod outcome;
pub mod parity;
pub mod parity_law;
pub mod plans;
pub mod prefill;
pub mod prefill_kernels;
pub mod prefill_law;
pub mod profile;
pub mod ptag;
pub mod reach_law;
pub mod reference;
pub mod rows;
pub mod sampling;
pub mod split;
pub mod split_law;
pub mod staging_law;
pub mod step;
pub mod table_law;
pub mod tensors;
pub mod text;
pub mod weights;
