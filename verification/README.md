# rustsdr

Sample pipeline pieces for software-defined radio, verified with Verus.

- `src/lib.rs`: conversion between unsigned 8-bit and signed 16-bit samples,
  with its round-trip and order laws.
- `src/sampletypes.rs`: complex samples and the `ConvertSampleFrom` /
  `ConvertSampleInto` conversions, buffer by buffer.
- `src/sample.rs`: the little-endian byte layout of samples (8-bit, 16-bit,
  and the bit patterns of 32-bit floats), through `num_traits`.
- `src/buffer.rs`: the `BytesMut` input buffer as the library sees it.
- `src/bss.rs`: per-buffer work of sample streams: framing raw bytes into
  samples, laying samples out as bytes, and complex parts; with the laws that
  framing reads back what layout writes and the reverse.
- `src/gen.rs`: the phase counter of a tone generator.
- `app/`: the program: asynchronous streams, timers, standard input, random
  noise and floating-point sample math.
