//! Verified core of the `sic` image tool: the image-operations script
//! grammar, the command-line operation unification, common-directory
//! mirroring for batch mode, output-format decisions and the user manual.

pub mod text;
pub mod jpeg;
pub mod numeric;
pub mod operations;
pub mod path;
pub mod common_dir;
pub mod statement;
pub mod img_op_arg;
pub mod formats;
pub mod config;
pub mod encoding_format;
pub mod combinators;
pub mod cli_config;
pub mod help;
pub mod glob;
pub mod pipeline;
pub mod license;
pub mod publish;
pub mod conversion;
pub mod custom_config;
