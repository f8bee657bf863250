//! A verified core of a source-code formatter for the Object Pascal family:
//! a total byte-driven tokenizer, a conditional-directive tree with pass
//! enumeration, the break-requirement engine of the optimising line
//! formatter, the token-local rewrites (comment prefixes, directive and
//! keyword casing, multiline string bodies), a formatting toggle that freezes
//! token ranges, and a reconstructor that renders the result back to bytes.

pub mod lang;
pub mod search;
pub mod unicode;
pub mod keywords;
pub mod lexer;
pub mod directive_tree;
pub mod lowercase_keywords;
pub mod toggler;
pub mod reconstructor;
pub mod comment_contents;
pub mod contexts;
pub mod requirements;
pub mod multiline_strings;
pub mod formatter;
pub mod file_selection;
pub mod datagen;
