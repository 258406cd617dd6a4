//! A verified parser for Wavefront-style object (`.obj`) and material (`.mtl`)
//! text, producing resolved scene structures for a wireframe renderer.
//!
//! Both grammars are line oriented and tolerant of blank lines and comments.
//! Each grammar rule is specified as a function over the text's character
//! sequence, and every executable parser is proved to return exactly what its
//! specification describes.

pub mod material_parser;
pub mod object_parser;
pub mod parser_utilities;
