pub mod cpp_visitor;
pub mod go_visitor;
pub mod js_visitor;
pub mod kind_set;
pub mod layout;
pub mod order;
pub mod outline;
pub mod parser;
pub mod python_visitor;
pub mod symbol;
pub mod syntax;
pub mod visitor;

pub use kind_set::KindSet;
pub use parser::{get_language, CodeParser};
pub use symbol::SymbolKind;
