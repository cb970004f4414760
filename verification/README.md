# antman

The package manager of the `ant` language, as a verified library and a thin
command-line program around it.

- `src/` is the library, verified with Verus: crate versions and the choice
  of the latest one (`krate`), decimal text (`decimal`), the manifest and
  dependency resolution (`crate_toml_config`), download, install and build
  planning (`crate_manager`), downloader settings and retries (`downloader`),
  new projects and their manifest (`project`, over `toml_edit` in
  `toml_doc`), the search for a crate's root (`handler`), the search for the
  `antc` compiler (`utils`) and reading zip archives (`unzip`).
- `app/` is the program: command-line parsing, network and file access,
  JSON and TOML parsing into the library's types, and the async runtime.
- `tests/` runs the library on concrete inputs.
