pub mod advanced;
pub mod advanced_laws;
pub mod c_checks;
pub mod c_laws;
pub mod call_laws;
pub mod callgraph;
pub mod config;
pub mod dataflow;
pub mod finding;
pub mod flow_laws;
pub mod java;
pub mod java_laws;
pub mod javascript;
pub mod javascript_laws;
pub mod language;
pub mod language_laws;
pub mod laws;
pub mod names;
pub mod output_laws;
pub mod outside;
pub mod paint;
pub mod patterns;
pub mod python;
pub mod python_laws;
pub mod report;
pub mod results;
pub mod rule;
pub mod sarif;
pub mod scanner;
pub mod screen_laws;
pub mod select;
pub mod symbolic;
pub mod syntax;
pub mod taint;
pub mod text;
pub mod text_laws;
pub mod tree_laws;
pub mod tui;
pub mod types;
