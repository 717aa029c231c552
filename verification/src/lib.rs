//! Decisions of an evaluator-scored kernel search.
pub mod analysis;
pub mod analyzers;
pub mod carrying;
pub mod children;
pub mod cli;
pub mod context;
pub mod controller;
pub mod dataset;
pub mod feedback;
pub mod fields;
pub mod gpu;
pub mod gpu_binary;
pub mod gpu_profile;
pub mod identity;
pub mod json;
pub mod lines;
pub mod memory;
pub mod models;
pub mod number;
pub mod numeral;
pub mod outside;
pub mod paths;
pub mod pieces;
pub mod pointer;
pub mod profilers;
pub mod prompts;
pub mod ranking;
pub mod readable;
pub mod recommend;
pub mod roles;
pub mod scripts;
pub mod search;
pub mod session;
pub mod simulated;
pub mod sorted;
pub mod startup;
pub mod table;
pub mod telling;
pub mod template;
pub mod text;
pub mod wording;
pub mod words;
pub mod worker;
pub mod written;
