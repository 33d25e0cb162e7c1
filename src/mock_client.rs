use vstd::prelude::*;

use crate::model::{SearchResponse, SearchResult};

verus! {

/// A stand-in for the documentation service that answers from fixed data,
/// so that the commands can be exercised without a network.
pub struct MockContext7Client;

/// Whether `r` is an active entry with every field present, holding the given
/// values and an empty list of versions.
pub open spec fn is_entry(
    r: SearchResult,
    id: Seq<char>,
    title: Seq<char>,
    description: Seq<char>,
    branch: Seq<char>,
    stars: i64,
    last_update_date: Seq<char>,
    total_pages: i64,
    total_snippets: i64,
    total_tokens: i64,
    trust_score_bits: u64,
) -> bool {
    &&& r.id@ == id
    &&& r.title matches Some(t) && t@ == title
    &&& r.description matches Some(d) && d@ == description
    &&& r.branch matches Some(b) && b@ == branch
    &&& r.state matches Some(s) && s@ == "active"@
    &&& r.stars == Some(stars)
    &&& r.last_update_date matches Some(u) && u@ == last_update_date
    &&& r.total_pages == Some(total_pages)
    &&& r.total_snippets == Some(total_snippets)
    &&& r.total_tokens == Some(total_tokens)
    &&& r.trust_score_bits == Some(trust_score_bits)
    &&& r.versions matches Some(v) && v@.len() == 0
}

/// The results that the stand-in service answers every search with.
pub open spec fn is_sample_results(s: Seq<SearchResult>) -> bool {
    &&& s.len() == 4
    &&& is_entry(
        s[0],
        "/facebook/react"@,
        "React"@,
        "A JavaScript library for building user interfaces"@,
        "main"@,
        220000,
        "2025-01-15"@,
        150,
        850,
        450000,
        0x4023_0000_0000_0000,
    )
    &&& is_entry(
        s[1],
        "/vercel/next.js"@,
        "Next.js"@,
        "The React Framework for the Web"@,
        "canary"@,
        120000,
        "2025-01-14"@,
        200,
        1200,
        600000,
        0x4022_6666_6666_6666,
    )
    &&& is_entry(
        s[2],
        "/vuejs/core"@,
        "Vue.js"@,
        "Progressive JavaScript Framework"@,
        "main"@,
        45000,
        "2025-01-10"@,
        80,
        400,
        200000,
        0x4021_9999_9999_999a,
    )
    &&& is_entry(
        s[3],
        "/sveltejs/svelte"@,
        "Svelte"@,
        "Cybernetically enhanced web apps"@,
        "master"@,
        75000,
        "2025-01-12"@,
        60,
        300,
        150000,
        0x4021_0000_0000_0000,
    )
}

/// The sample documentation that the stand-in service returns for `id`.
pub open spec fn sample_docs(id: Seq<char>) -> Seq<char> {
    "# Documentation for "@ + id
        + "\n\n## Overview\nThis is sample documentation for testing purposes.\n\n## Installation\n```bash\nnpm install "@
        + id + "\n```\n\n## Usage\n```javascript\nimport { something } from '"@ + id
        + "';\n```\n\n## API Reference\n- `function1()` - Does something useful\n- `function2()` - Does something else useful\n\n## Examples\nSee the examples directory for more information.\n"@
}

fn entry(
    id: &str,
    title: &str,
    description: &str,
    branch: &str,
    stars: i64,
    last_update_date: &str,
    total_pages: i64,
    total_snippets: i64,
    total_tokens: i64,
    trust_score_bits: u64,
) -> (r: SearchResult)
    ensures
        is_entry(
            r,
            id@,
            title@,
            description@,
            branch@,
            stars,
            last_update_date@,
            total_pages,
            total_snippets,
            total_tokens,
            trust_score_bits,
        ),
{
    SearchResult {
        branch: Some(String::from_str(branch)),
        description: Some(String::from_str(description)),
        id: String::from_str(id),
        last_update_date: Some(String::from_str(last_update_date)),
        stars: Some(stars),
        state: Some(String::from_str("active")),
        title: Some(String::from_str(title)),
        total_pages: Some(total_pages),
        total_snippets: Some(total_snippets),
        total_tokens: Some(total_tokens),
        trust_score_bits: Some(trust_score_bits),
        versions: Some(Vec::new()),
    }
}

impl MockContext7Client {
    pub fn new() -> (c: MockContext7Client) {
        MockContext7Client
    }

    /// Answers any search with the same four well-known libraries.
    pub fn search(&self, query: &str) -> (r: SearchResponse)
        ensures
            is_sample_results(r.results@),
    {
        let mut results: Vec<SearchResult> = Vec::new();
        results.push(
            entry(
                "/facebook/react",
                "React",
                "A JavaScript library for building user interfaces",
                "main",
                220000,
                "2025-01-15",
                150,
                850,
                450000,
                0x4023_0000_0000_0000,
            ),
        );
        results.push(
            entry(
                "/vercel/next.js",
                "Next.js",
                "The React Framework for the Web",
                "canary",
                120000,
                "2025-01-14",
                200,
                1200,
                600000,
                0x4022_6666_6666_6666,
            ),
        );
        results.push(
            entry(
                "/vuejs/core",
                "Vue.js",
                "Progressive JavaScript Framework",
                "main",
                45000,
                "2025-01-10",
                80,
                400,
                200000,
                0x4021_9999_9999_999a,
            ),
        );
        results.push(
            entry(
                "/sveltejs/svelte",
                "Svelte",
                "Cybernetically enhanced web apps",
                "master",
                75000,
                "2025-01-12",
                60,
                300,
                150000,
                0x4021_0000_0000_0000,
            ),
        );
        SearchResponse { results }
    }

    /// Returns a short sample document that names `id`.
    pub fn get_docs(&self, id: &str) -> (r: String)
        ensures
            r@ == sample_docs(id@),
    {
        let mut docs = String::from_str("# Documentation for ");
        docs.append(id);
        docs.append(
            "\n\n## Overview\nThis is sample documentation for testing purposes.\n\n## Installation\n```bash\nnpm install ",
        );
        docs.append(id);
        docs.append("\n```\n\n## Usage\n```javascript\nimport { something } from '");
        docs.append(id);
        docs.append(
            "';\n```\n\n## API Reference\n- `function1()` - Does something useful\n- `function2()` - Does something else useful\n\n## Examples\nSee the examples directory for more information.\n",
        );
        docs
    }
}

impl Default for MockContext7Client {
    fn default() -> (c: MockContext7Client)
        ensures
            c == MockContext7Client,
    {
        MockContext7Client::new()
    }
}

} // verus!
