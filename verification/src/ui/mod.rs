pub mod help;
pub mod highlight;
pub mod markdown;
pub mod raw_view;
pub mod run_list;
pub mod run_summary;
pub mod search;
pub mod status_bar;
pub mod style;
pub mod tools_view;
pub mod transcript;
pub mod wrap;
