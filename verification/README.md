# spacetimedb_lib

What a SpacetimeDB host, its modules and its command line clients share, with its behaviour stated
in contracts that Verus proves.

- `src/version.rs`: versions of the interface between host and module.
- `src/types.rs`, `src/typespace.rs`: structural types, and types with their references filled in.
- `src/bsatn.rs`: the binary format of definitions.
- `src/module_def.rs`, `src/reducer.rs`: module definitions, their tables and reducers, and the
  arguments of a call.
- `src/hex_pad.rs`: bytes in hexadecimal digits.
- `src/limited_read.rs`, `src/zeroizing.rs`: reading a file within a limit, and buffers whose
  contents are zero, or empty, when they are dropped.
- `src/root_cert.rs`, `src/cert_error.rs`, `src/request_error.rs`: certificates, and what the user
  is told when something fails.
- `src/cli_args.rs`: the command line arguments for certificates.
- `src/text.rs`: building strings.

`app/` opens files, talks to `clap`, gives Rust types their numbers, hands arguments to what
carries them, and turns the errors of other crates into values of the library. It is not verified.

The library does not depend on `spacetimedb_sats`, which is a crate of the same workspace. The
types, the resolution of references, the bytes of definitions and the order in which arguments are
read are therefore defined here, as far as this library needs them, and their contracts speak of
these definitions alone: nothing here shows that the two crates agree. How single values are
written as bytes is left to the caller of `write_args` and `read_args`;
`law_args_come_back_from_bytes` says that all arguments of a call come back from their bytes in any
format that gives each single value back.

Functions marked `#[verifier::external_body]` call `zeroize`, `hex`, `native-tls` or the standard
library; their contracts are believed, and say above them what they claim. Proof functions whose
names begin with `law_` state what holds of the library as a whole.
