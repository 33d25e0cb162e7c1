use vstd::prelude::*;

verus! {

/// What went wrong before or after a call to the documentation service.
#[derive(Debug, Clone, PartialEq, Eq)]
pub enum CliError {
    /// The sort key given is none of the recognised field names.
    InvalidSortField { value: String },
    /// A search for the best match found nothing.
    NoResults { query: String },
}

/// The list of sort keys that the error for an unknown key offers.
pub open spec fn valid_sort_keys_text() -> Seq<char> {
    "stars, totalPages, totalSnippets, totalTokens, trustScore"@
}

/// The message that an error shows to the operator.
pub open spec fn error_message(e: CliError) -> Seq<char> {
    match e {
        CliError::InvalidSortField { value } => "Invalid sort field '"@ + value@
            + "'. Valid options are: "@ + valid_sort_keys_text(),
        CliError::NoResults { query } => "No results found for query: '"@ + query@ + "'"@,
    }
}

impl CliError {
    /// A human-readable description of the error, naming the offending value.
    pub fn message(&self) -> (r: String)
        ensures
            r@ == error_message(*self),
    {
        match self {
            CliError::InvalidSortField { value } => {
                let mut out = String::from_str("Invalid sort field '");
                out.append(value.as_str());
                out.append("'. Valid options are: ");
                out.append("stars, totalPages, totalSnippets, totalTokens, trustScore");
                out
            },
            CliError::NoResults { query } => {
                let mut out = String::from_str("No results found for query: '");
                out.append(query.as_str());
                out.append("'");
                out
            },
        }
    }
}

} // verus!
