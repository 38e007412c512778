# ragrig_bench

Compares retrieval-augmented generation setups on one's own documents and
questions: a TOML file describes agents, corpora, (parser, chunker) pipelines
and rankers, and a Markdown report lays every combination out side by side.

The library computes; it opens no file and no connection.  The functions in
`src/` have contracts that Verus proves, except for the few at the end of this
page, whose contracts are taken on trust.

| Module | What it holds |
|---|---|
| `config`, `error` | the configuration, its validation, mock mode, the errors |
| `defaults` | filling up a section from its defaults |
| `provenance`, `naming_laws` | names of corpora and pipelines, and that they identify what they name |
| `pipelines`, `corpora`, `registry` | resolution of pipelines and corpora |
| `rankers`, `backends` | which ranker, embedder and chat backend a configuration asks for |
| `mock`, `mock_laws` | canned answers, bag-of-words vectors, synthetic documents |
| `matrix`, `itinerary` | the run over the matrix as a machine, and the order of its stops |
| `interaction` | the run with the report it writes, stop by stop |
| `ingestion` | the walk over pipelines and corpora |
| `report`, `progress` | the text of the report and of the log |
| `text`, `number` | character sequences and decimal numbers |

What one process indexes the other has to find, so the names are at the centre:
both sides derive the same ones, and no two cells of the matrix share one, as
long as the names of the corpora or those of the parsers hold no colon.

`app/` holds the programs: `ragrig-bench-ingest` builds the vector database in
a workspace, `ragrig-bench-interact` runs the matrix against it, `ragrig_bench`
does both in one process, and `ragrigio` answers one query from stdin.  They
read files, drive `ragrig` and hand the outcomes to the library.

Taken on trust, without proof, are the contracts of eight small functions and
of `String::push`:

- what `ragrig` lists in its registries (`available_chunkers`,
  `build_parsers`) and how it reads the name of an embedding backend
  (`parse_embedder`);
- what `serde_json` does to the fields of an object (`value_is_object`,
  `set_field`, `into_fields`);
- what the standard library takes for a letter or a number and for the
  lowercase form of a text (`char_is_alphanumeric`, `to_lowercase`).

The doc comment of each says what is claimed.
