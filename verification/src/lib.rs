//! Verified core of a local, read-only marketplace research server.

pub mod address;
pub mod broker;
pub mod browser;
pub mod browser_error;
pub mod call_flow;
pub mod call_laws;
pub mod config;
pub mod context_binding;
pub mod context_report;
pub mod contracts;
pub mod detail_laws;
pub mod digest;
pub mod double;
pub mod driver_close;
pub mod evidence;
pub mod executor;
pub mod facet_laws;
pub mod failure;
pub mod files;
pub mod gateway;
pub mod image_batch;
pub mod image_hosts;
pub mod images;
pub mod journal;
pub mod json;
pub mod keys;
pub mod ledger;
pub mod local_laws;
pub mod market_laws;
pub mod marketplace;
pub mod members;
pub mod model;
pub mod model_laws;
pub mod number_laws;
pub mod operations;
pub mod ozon_pages;
pub mod page_laws;
pub mod page_outcome;
pub mod parse;
pub mod parse_laws;
pub mod pattern;
pub mod pieces;
pub mod presentation;
pub mod presentation_laws;
pub mod processes;
pub mod product_batch;
pub mod product_details;
pub mod product_laws;
pub mod reading_laws;
pub mod refinement_laws;
pub mod refinements;
pub mod request_laws;
pub mod response;
pub mod result_laws;
pub mod review_call;
pub mod review_laws;
pub mod review_pages;
pub mod search;
pub mod search_call;
pub mod search_laws;
pub mod search_results;
pub mod seen_chain;
pub mod service;
pub mod service_laws;
pub mod shown_laws;
pub mod source_laws;
pub mod text;
pub mod widgets;
pub mod word_laws;
