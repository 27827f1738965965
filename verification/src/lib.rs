#![allow(unused_imports)]
use vstd::prelude::*;

pub mod text;
pub mod lexer;
pub mod order;
pub mod parser;
pub mod strmap;
pub mod executor;
pub mod expansion;
pub mod chronos;
pub mod shell;
