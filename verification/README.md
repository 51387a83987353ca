# hotdownloader_core

The core of a music download service for QQ Music and Kuwo, verified with Verus.

- `src/` is the library. Verus proves every function there against its
  `requires`/`ensures` contract: task bookkeeping and its persistence rules
  (`task_state`, `task_service`), download paths and file names
  (`download_path`, `filename`), the HTTP transfer and worker decisions
  (`http_transfer`, `download_worker`, `download_link`), settings patches
  (`settings_patch`), the stored QQ login and its refresh (`qq_credentials`), the platforms' response parsers (`platforms/`), the QRC
  lyric cipher (`des`, `qrc`) and the HTTP routing of the web server (`server`).
  Calls into outside crates (flate2, rand, serde_json's reader and writer,
  regex's `\w`, reqwest's URL parser) stand behind small trusted wrappers whose
  contracts say what the crate's documentation promises or name the result.
- `tests/` runs the library on concrete values.
- `app/` is the server program: the hyper HTTP loop, the reqwest requests, file
  I/O, audio tags written with lofty, and the serde copies of the library's
  types. It performs what the library decides and hands the outcomes back.
