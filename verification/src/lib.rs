pub mod able;
pub mod all_attributes;
pub mod arrange;
pub mod ast;
pub mod attribute;
pub mod attribute_laws;
pub mod attributes;
pub mod bind_laws;
pub mod capture;
pub mod capture_class;
pub mod capture_laws;
pub mod context_laws;
pub mod copy;
pub mod deferred;
pub mod deferred_laws;
pub mod effect_laws;
pub mod element;
pub mod element_laws;
pub mod entry;
pub mod escape;
pub mod escape_laws;
pub mod file;
pub mod file_laws;
pub mod flatten;
pub mod flatten_all;
pub mod flatten_laws;
pub mod frame;
pub mod group_laws;
pub mod growth;
pub mod growth_attributes;
pub mod growth_elements;
pub mod growth_laws;
pub mod handler_laws;
pub mod handlers;
pub mod import_laws;
pub mod imports;
pub mod info;
pub mod interface;
pub mod ir;
pub mod lengthen;
pub mod lengthen_attributes;
pub mod lengthen_laws;
pub mod live_laws;
pub mod make;
pub mod marker;
pub mod merge;
pub mod nesting;
pub mod nesting_attributes;
pub mod nesting_elements;
pub mod nesting_laws;
pub mod nesting_make;
pub mod nesting_nodes;
pub mod node;
pub mod option_laws;
pub mod options;
pub mod order;
pub mod output;
pub mod output_laws;
pub mod outside;
pub mod peel;
pub mod place;
pub mod place_laws;
pub mod plan;
pub mod program;
pub mod properties;
pub mod property_laws;
pub mod recover;
pub mod refresh_extract;
pub mod refresh_laws;
pub mod refresh_names;
pub mod refresh_parts;
pub mod refresh_shape;
pub mod refresh_stay;
pub mod refresh_tree;
pub mod refresh_trees;
pub mod refresh_walk;
pub mod resolve;
pub mod scan;
pub mod scan_laws;
pub mod server_element_laws;
pub mod server_laws;
pub mod server_tree_laws;
pub mod shape;
pub mod spread;
pub mod spread_laws;
pub mod ssr;
pub mod ssr_attribute;
pub mod ssr_attributes;
pub mod ssr_element;
pub mod ssr_growth;
pub mod ssr_laws;
pub mod static_laws;
pub mod statics;
pub mod style;
pub mod template;
pub mod text;
pub mod text_laws;
pub mod tree_laws;
pub mod universal;
pub mod universal_laws;
pub mod vocabulary;
