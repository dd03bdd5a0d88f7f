pub mod assoc;
pub mod ast;
pub mod backend;
pub mod bootstrap;
pub mod compile;
pub mod compiler;
pub mod datatype;
pub mod emit;
pub mod error;
pub mod lexer;
pub mod module;
pub mod primitive;
pub mod semantics;
pub mod symbol;
pub mod tree;

pub use crate::ast::Node;
pub use crate::ast::Operator;
pub use crate::ast::Primitive;
pub use crate::backend::Value;
pub use crate::bootstrap::Core;
pub use crate::compiler::Compiler;
pub use crate::datatype::DataType;
pub use crate::emit::FarneseInternal;
pub use crate::emit::LLVMAlloca;
pub use crate::emit::LLVMPrintf;
pub use crate::emit::LLVMType;
pub use crate::emit::LLVMValue;
pub use crate::error::CompileError;
pub use crate::module::Module;
pub use crate::symbol::Symbol;
pub use crate::symbol::SymbolTable;
