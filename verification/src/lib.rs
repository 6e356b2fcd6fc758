//! Foundation of a command-line option system: a typed model of the values
//! arguments may carry and a builder for describing declarable options.

pub mod argument;
