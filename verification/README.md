# symphonia (verified core)

A Verus library crate holding the logic of a set of Symphonia components, each function proved
against a contract:

- `io`: an in-memory byte reader with endian-aware integer reads, buffered seeking and
  finite-stream queries; the I/O error type; the steps of reading a buffer in full.
- `pcm`: the PCM decoder (parameter checks, A-law and mu-law expansion, decoding of interleaved
  integer samples of every width and byte order into planar buffers).
- `adpcm`: the ADPCM decoder's parameter checks and codec table.
- `fft`: transform set-up and the bit-reversal reordering used above 4096 points.
- `isomp4`: the `mdhd`, `mehd` and `sidx` atoms.
- `id3v2`: frame identifiers, the ID3v2.2 identifier map, synchsafe integers,
  unsynchronisation and the reading of ID3v2.2/2.3/2.4 frames.
- `codecs`, `errors`: the shared codec-parameter, buffer and error types.

`app/` holds what the verifier does not take: the asynchronous `Read`/`Seek`/`MediaSource`
traits and sources, and the floating-point transforms run through CMSIS-DSP.
