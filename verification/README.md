# kornia_wgpu

GPU images and tensors on `wgpu`, with pooled memory, cached pipelines and a handful of WGSL compute
shaders, written and verified with Verus.

## What it does

- `image_to_gpu` / `image_to_cpu` and `WgpuSession::upload_tensor` / `download_tensor` move data
  between the CPU and the GPU.
- `ops::image` resizes (nearest, bilinear) and casts (`u8` to `f32` and back); `ops::tensor` adds and
  rectifies elementwise. The results stay on the GPU, so operations can be chained.
- `BufferPool` and `StagingPoolMap` keep unused buffers by size class. A buffer that is given back is
  the next one to be handed out.
- `WgpuDevice` compiles each pipeline once per key and finds it again by a hash of the key.
- Scalar parameters are passed as immediate data; on a device without it, in one small uniform buffer.
- `ops::compute_1in_1out` dispatches any shader that reads one buffer and writes another.

## How it is laid out

| Path | Contents |
|---|---|
| `src/gpu.rs`, `src/pipeline.rs` | the device as the proofs see it, and the calls into `wgpu` |
| `src/pool.rs` | size classes, compute buffers, staging buffers |
| `src/shader.rs`, `src/kernel.rs` | shader texts, bindings, cache keys, and the table of shaders |
| `src/device.rs`, `src/session.rs` | devices, the pipeline cache, sessions |
| `src/bytes.rs`, `src/pixel.rs`, `src/host.rs` | elements as bytes, pixel types, CPU images and tensors |
| `src/transfer.rs`, `src/gpu_res.rs`, `src/allocator.rs` | transfers, GPU images and tensors, ownership of buffers |
| `src/ops/` | grids, dispatching, resizing, casting, elementwise operations |
| `app/` | sessions with several owners, on kornia's own types |

## What is proved

Contracts speak of the bytes that each buffer holds once the work handed to the queue is done, of the
buffers that are mapped, of the dispatches that were handed over and of the programs that were
compiled. From them follow, among others:

- what is downloaded is what was uploaded, whatever else ran in between;
- no operation touches an image or tensor that was in use before it;
- work of a fixed size creates no buffer once it is warm, no pool grows beyond its maximum, and what a
  pool hands out is never smaller than what was asked for;
- a shared buffer goes back to its pool once, with its last handle;
- a pipeline is compiled once per key, and never mistaken for another;
- every output element of a dispatch is reached by exactly one invocation, and no grid exceeds the
  limit of a dimension.

What a shader computes is the GPU's doing: the contracts fix the program, the buffers, the immediate
data and the grid that are handed over, and that nothing but the output can change.

Floating point numbers are held as their bits (`bytes::F32`). Elements become bytes in the order of the
machine.

## What is trusted

The functions marked `external_body` in `src/gpu.rs`, `src/pipeline.rs`, `src/bytes.rs`, `src/host.rs`
and `src/shader.rs`. Each makes a call into `wgpu`, `bytemuck`, `kornia-image`, `kornia-tensor` or std,
or the few that belong together, and its comment says which and what is claimed of them. Whether `wgpu` takes a
shader that is not one of this crate's is named, not described: such calls are made under an error
scope, and `WgpuDevice::try_pipeline` and `ops::try_compute_1in_1out` hand the refusal back. Of a lost
device and of exhausted memory nothing is claimed: `wgpu` goes on without effect on the one, and stops
the program on the other.
