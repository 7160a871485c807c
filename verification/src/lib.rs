//! Extraction of structured data from PDF documents: the documents and how they
//! are stored, the requests to the models and what their answers mean, and the
//! panes in which a document is looked at.

pub mod ad_hoc;
pub mod choice_laws;
pub mod client_laws;
pub mod component;
pub mod component_laws;
pub mod discovery;
pub mod doc_laws;
pub mod error;
pub mod extractor;
pub mod ids;
pub mod inspector;
pub mod inspector_laws;
pub mod inspector_model;
pub mod inspector_rows;
pub mod inspector_text;
pub mod ir;
pub mod ir_laws;
pub mod json;
pub mod kdl_format;
pub mod kdl_laws;
pub mod kdl_model;
pub mod kdl_read;
pub mod kdl_tree;
pub mod kdl_write;
pub mod kinds;
pub mod mock;
pub mod modal;
pub mod number;
pub mod openai;
pub mod page_set;
pub mod pane_laws;
pub mod pass2;
pub mod pass2_laws;
pub mod pdf;
pub mod pdf_laws;
pub mod raster;
pub mod sorted;
pub mod stamp;
pub mod text;
pub mod text_laws;
pub mod toc;
pub mod toc_laws;
pub mod tree_laws;
pub mod view_laws;
pub mod wording_laws;
pub mod workspace;
pub mod workspace_laws;
