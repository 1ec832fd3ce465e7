//! Content processors: each derives observations from raw bytes.
pub mod ast;
pub mod binary;
pub mod category_theory;
pub mod containers;
pub mod decompiler;
pub mod html;
pub mod images;
pub mod markdown;
pub mod network;
pub mod ocr;
pub mod office;
pub mod pdf;
pub mod video;
pub mod repositories;
pub mod set_theory;
pub mod temporal_algebra;
pub mod graph_theory;
pub mod optimization;
pub mod byte_stats;
pub mod information_theory;
pub mod probability;
pub mod vector_spaces;
pub mod algorithm_engine;
pub mod search_processor;
pub mod repo_intel_processor;
pub mod temporal_graph_processor;
pub mod fabric;
