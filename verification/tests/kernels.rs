use reinfer_cuda::decode::{DecodeDotKernels, DecodeKernels};
use reinfer_cuda::dense::DenseKernels;
use reinfer_cuda::dequant::DequantKernels;
use reinfer_cuda::diff::DiffKernels;
use reinfer_cuda::launch::{CudaStream, Kernel, Launch};

const ST: CudaStream = CudaStream { dev: 1, handle: 6 };

fn shape(l: &Launch) -> (Kernel, (u32, u32, u32), (u32, u32, u32), u32) {
    let (g, b) = (l.grid, l.block);
    (l.kernel, (g.x, g.y, g.z), (b.x, b.y, b.z), l.shared)
}

#[test]
fn rows_and_blocks() {
    let dense = DenseKernels::new("sm_90");
    let l = dense.launch_rope_row(1, &ST, 0x10, 64, 7, 0x4974_2400);
    assert_eq!(shape(&l), (Kernel::RopeNeoxF16, (1, 1, 1), (256, 1, 1), 0));
    assert_eq!(l.args, [0x10, 64, 7, 0x4974_2400]);
    assert_eq!((l.on.dev, l.on.stream), (1, ST));
    let diff = DiffKernels::new("sm_90", ST);
    let l = diff.launch_masked_softmax(1, 0x10, 0x20, 77);
    assert_eq!(shape(&l), (Kernel::MaskedSoftmaxRow, (1, 1, 1), (256, 1, 1), 0));
    assert_eq!(l.args, [0x10, 0x20, 77]);
    let l = diff.launch_transpose_f16(1, &ST, 0x10, 0x20, 33, 16);
    assert_eq!(shape(&l), (Kernel::TransposeF16, (1, 3, 1), (16, 16, 1), 0));
    assert_eq!(l.args, [0x10, 0x20, 33, 16]);
    let dequant = DequantKernels::new("sm_90", ST);
    let l = dequant.launch_dequant_q8_0(1, 0x10, 0x20, 5);
    assert_eq!(shape(&l), (Kernel::DequantQ80, (5, 1, 1), (32, 1, 1), 0));
    assert_eq!(l.args, [0x10, 0x20, 5]);
    assert!(DecodeKernels::new("sm_90", ST).flash_available());
}

#[test]
fn quantized_dots_of_nothing_are_not_launched() {
    let dot = DecodeDotKernels::new("sm_90", ST);
    assert!(dot.launch_fused_q8_dot(1, 1, 2, 3, 0, 64).is_none());
    assert!(dot.launch_fused_q8_dot(1, 1, 2, 3, 9, 0).is_none());
    let l = dot.launch_fused_q8_dot(1, 1, 2, 3, 9, 64).unwrap();
    assert_eq!(shape(&l), (Kernel::FusedQ8Dot, (2, 1, 1), (256, 1, 1), 0));
    assert_eq!(l.args, [1, 2, 3, 9, 64]);
}
