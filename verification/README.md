# ggsw_lab

Experiments with the GGSW external product of `concrete-core` over 64-bit
torus ciphertexts, with the library's own logic verified by Verus.

- `src/params.rs`: sizes of GLWE and GGSW coefficient containers.
- `src/rows.rs`: containers as rows of GLWE ciphertexts: filling, overwriting and reading rows.
- `src/codec.rs`: the byte frames in which GLWE and GGSW ciphertexts are serialized, and a checked GGSW frame decoder.
- `src/fhe.rs`: the engine calls, each behind a wrapper whose contract states what the engine's source shows.
- `src/experiment.rs`: the two experiments, driven from engines handed in by the caller.
- `app/main.rs`: builds the engines (seeded from the operating system), runs the row experiment and prints the results; also holds the floating-point benchmark of the raw external product.
