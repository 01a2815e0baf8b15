# SUNix (Software Updates for Nix)

A GTK4 layer-shell popup that shows what a NixOS or Home Manager switch would
change, from the JSON diff that `dix` writes. It can also write the report to
standard output as Markdown or PDF.

## Layout

- `src/` is the library, verified with Verus. Every function states its result
  over mathematical models (`Seq<char>` for text, views of the report types):
  - `dix` groups a `dix` diff into an update report (groups sorted by status,
    changes in diff order) and names the commands and profile paths a build uses;
  - `format`, `bytes` and `version_order` write the version and size columns,
    with byte sizes computed exactly as a double would show them and versions
    compared numerically run by run;
  - `report_markdown` and `report_pdf` write the report's text;
  - `config` parses `sunix.toml`, `cli` the command line, `command` what is kept
    of a command's output;
  - `ui` holds the popup's decisions: key shortcuts, the session's report cache,
    export file names and paths.
- `app/` is the program around it: reading files and the environment, running
  `nix build` and `dix`, parsing JSON with serde, drawing with cairo and GTK.
- `tests/` runs the library on concrete values.
