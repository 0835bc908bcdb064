pub mod ast;
pub mod config;
pub mod deps;
pub mod import_default;
pub mod lint;
pub mod module_record;
pub mod no_excessive_deps;
pub mod no_export_all;
pub mod no_restricted_imports;
pub mod node;
pub mod prefer_reflect_apply;
pub mod text;
