pub mod commands;
pub mod endpoints;
pub mod error;
pub mod formatting;
pub mod mock_client;
pub mod model;
pub mod sorting;
pub mod text;
pub mod validation;

pub use commands::pick_best_match;
pub use error::CliError;
pub use formatting::format_ids_only;
pub use mock_client::MockContext7Client;
pub use model::{SearchResponse, SearchResult};
pub use sorting::{apply_limit, sort_search_results, SortField};
pub use validation::validate_search_results_not_empty;
