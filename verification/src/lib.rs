//! Builds a paginated bill as a PDF document.
//!
//! [`genpdf`] takes a subject, the labels and prices of its items and one
//! image for each page. [`paginate`] cuts the items into pages, [`content`]
//! and [`image`] say what each page draws, and [`assemble`] ties the pages
//! into a page tree below a catalog in an [`store::ObjectStore`] and writes
//! the document out through `lopdf`. Contracts are stated over
//! [`model::Node`], the mathematical value of a PDF object; [`laws`] holds
//! what follows for every bill.

pub mod model;
pub mod backend;
pub mod text;
pub mod layout;
pub mod error;
pub mod content;
pub mod store;
pub mod image;
pub mod objects;
pub mod paginate;
pub mod assemble;
pub mod bill;
pub mod laws;

pub use bill::genpdf;
pub use error::BuildError;
pub use layout::Layout;
pub use model::ObjectId;
pub use text::Price;
