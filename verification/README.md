# sic

`sic` converts images and applies image operations from the command line.
This crate holds its decisions as a verified library, with a thin program
around it.

- `src/` — the library, with contracts proved by Verus: the
  image-operations script grammar (`operations`), the unification of image
  operations given as command-line arguments (`img_op_arg`), the settings of
  a run (`cli_config`, `config`), output-format decisions (`formats`,
  `encoding_format`), paths and the common directory of a batch (`path`,
  `common_dir`, `glob`), the user manual (`help`), license display
  (`license`), the staged single-image pipeline (`pipeline`) and the steps of the
  workspace publishing tool (`publish`).
- `app/` — the `sic` program: argument parsing with `clap`, reading and
  writing files, walking glob patterns, and the pixel work of the `image`
  crate.
- `tests/` — tests of the library.
