# reinfer_cuda

The CUDA side of a small inference engine for Llama-style models: what a decode
step, a prefill and a merged batch launch, copy and allocate, as a library whose
behaviour Verus proves.

`src/` decides and computes. It never touches a device: a launch is a value that
names a kernel, its geometry and its argument words; a copy is a plan; an
allocation is a size that goes out and an address that comes in. Scalars that are
floating point stand there as their bit patterns. Each public function states
what it returns, and the public proof functions state what holds between them.

`app/` carries the plans out with cudarc: memory, streams, events, kernels,
cuBLAS, files and the environment.

| modules | what they hold |
| --- | --- |
| `error`, `engine_error`, `text`, `math`, `bytes`, `float_bits` | error classes, texts, arithmetic, little-endian bytes, half precision |
| `arch`, `device_info`, `env` | architecture names, device identity, switches |
| `buffer_check`, `buffer`, `copies` | which copies are admitted, how they run, and what they do to memory |
| `launch`, `dense`, `diff`, `decode`, `dequant`, `prefill_kernels`, `batch_kernels` | kernels and their launches |
| `gemm`, `plans`, `fused`, `layer_fused`, `fmha`, `attention` | products, their two-phase kernels and fused forms, attention over a prompt |
| `model`, `weights`, `tensors`, `load`, `extents` | the model, its tensors, what is allocated for it, and that products stay inside |
| `step`, `split`, `parity`, `fused_step` | the forms of a decode step as programs |
| `graph`, `decl`, `decl_build`, `decl_split`, `decl_fused`, `graph_state` | the declared step, its cells, and the graphs captured for it |
| `engine`, `outcome`, `prefill`, `batch`, `batch_step`, `rows`, `sampling`, `generate` | how steps, prompts, batches and generations are served, and that a row of a batch is a step |
| `profile`, `ptag` | what the profilers count |
