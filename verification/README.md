# rtic_macros

The code generation core of the RTIC application macro, verified with Verus.

- `syntax`, `analyze`: the parsed application and its analysis, as the code
  generator reads them.
- `backend_traits`: the hooks a distribution implements; `backend`: the
  template distribution's backend.
- `codegen`: the statements run before and after `#[init]`, and the
  application module assembled from the generated sections.
- `run_macro`, `run_mock_app` (crate root): the backend's processing and
  validation stages, and the resulting expansion.
- `out_dir`: where the expanded code is written.
- `outside`: the types and calls of `syn`, `proc-macro2` and `std::path`
  that the library relies on.
- `app/`: the file-system edge (reading `OUT_DIR`, writing the expansion).
