# research-hub

Search, download and cite academic papers across scholarly sources
(OpenAlex, Crossref, PubMed, Semantic Scholar, Unpaywall, CORE, OpenReview,
SSRN, arXiv, bioRxiv, MDPI, ResearchGate, Sci-Hub, and the book catalogues
BASE, DOAJ, Google Books, HathiTrust, Open Library and Zenodo).

The library (`src/`) is verified with Verus. It holds everything the tool
decides and computes:

- `models`, `config`: papers, search and download results, citation
  metadata, and the settings a run takes from its environment;
- `search`: query classification (DOI, ISBN, author, keywords), title keys,
  de-duplication, dating, sorting, and the planning and merging of a
  meta-search;
- `provider`: the sources, their priorities and capabilities, the spacing
  of requests to one source (how long to wait before the next), the retry
  schedule, and for each source its query phrasing and the reading of its
  answers (`provider::answers` for the JSON searches);
- `download`: file names, what counts as a PDF, the order sources are
  tried in, and the results a download reports;
- `bibliography`: metadata from Crossref and Semantic Scholar, and the
  BibTeX, APA, MLA, Chicago, IEEE and Harvard formatters;
- `json`, `xml`, `html`, `pattern`, `unicode`, `text`: documents as plain
  values, the calls into `roxmltree`, `scraper`, `regex`,
  `unicode-normalization` and std's case tables, and string utilities.

The laws the library keeps are public proof functions: search results
never share a DOI, ISBN, OCLC number or title key; de-duplication keeps
input order and is idempotent; sorting orders and permutes; every source
asked is reported once; the retry wait doubles up to ten seconds; every DOI
of a bibliography yields an entry or an error line; a BibTeX entry with its
abstract is the entry without it plus one `abstract` line; the kind of a
query does not change when white space is trimmed from or added around it.
Other laws are stated in the `ensures` of the function they concern, such as
the settings being valid whatever the environment holds.

`app/` is the command-line tool around the library: argument handling,
HTTP requests, the clock, the sleeps and locks that carry out the library's
waits, timeouts and concurrency, the file system, and JSON output.
