//! What the log says, in terms of the names and figures that go into it.

use vstd::prelude::*;
use vstd::utf8::encode_utf8;
use crate::number::decimal;
use crate::progress::{
    asking_text, done_text, excerpt_text, indexing_text, ingesting_text,
    law_excerpt_is_the_longest_prefix, ready_text, reindex_text, stored_text, workspace_text,
};

verus! {

/// A question is shown from its start, whole up to sixty bytes, and otherwise
/// as far as whole characters fit into sixty bytes.
pub proof fn law_excerpts_fit_into_sixty_bytes(question: Seq<char>, n: int)
    requires
        0 <= n <= question.len(),
    ensures
        excerpt_text(question).is_prefix_of(question),
        encode_utf8(excerpt_text(question)).len() <= 60,
        encode_utf8(question).len() <= 60 ==> excerpt_text(question) == question,
        encode_utf8(question.take(n)).len() <= 60 ==> excerpt_text(question).len() >= n,
{
    law_excerpt_is_the_longest_prefix(question, n);
}

/// The log names where a question is asked and shows its excerpt in quotes.
pub proof fn law_asking_names_place_and_question(place: Seq<char>, question: Seq<char>)
    ensures
        asking_text(place, question) == "  "@ + place + " ← \""@ + excerpt_text(question) + "\""@,
{
}

/// The log names the workspace with its embedder, backend before model, and the
/// number of its dimensions.
pub proof fn law_workspace_is_named_with_its_embedder(
    workspace: Seq<char>,
    backend: Seq<char>,
    model: Seq<char>,
    dimensions: nat,
)
    ensures
        workspace_text(workspace, backend, model, dimensions) == "Workspace: "@ + workspace
            + " — embedder: "@ + backend + "/"@ + model + " ("@ + decimal(dimensions) + " dims)"@,
{
}

/// The log names what is removed, and which pipeline takes on which corpus.
pub proof fn law_indexing_is_named(database: Seq<char>, pipeline: Seq<char>, corpus: Seq<char>)
    ensures
        reindex_text(database) == "Reindex: removing existing vector database "@ + database
            + " …"@,
        ingesting_text(pipeline, corpus) == "Ingesting pipeline '"@ + pipeline
            + "' into corpus '"@ + corpus + "' …"@,
        indexing_text(pipeline) == "Indexing pipeline '"@ + pipeline + "' …"@,
{
}

/// The log counts what the store holds before what this run added, and in the
/// end the provenances in their workspace.
pub proof fn law_store_is_counted(
    stored: nat,
    indexed: nat,
    provenances: nat,
    workspace: Seq<char>,
)
    ensures
        stored_text(stored, indexed) == "  "@ + decimal(stored) + " chunks in store ("@ + decimal(
            indexed,
        ) + " indexed in this run)."@,
        ready_text(stored, indexed) == "Store: "@ + decimal(stored) + " chunks ready ("@ + decimal(
            indexed,
        ) + " in this run)."@,
        done_text(provenances, workspace) == "Done: "@ + decimal(provenances)
            + " provenance(s) indexed in "@ + workspace + "."@,
{
}

} // verus!
