//! Text that the HTML views are assembled from.

pub mod dashboard;
