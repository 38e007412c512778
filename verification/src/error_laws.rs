//! What the errors say.

use vstd::prelude::*;
use crate::error::{text_result, texts_result, BenchError};
use crate::number::NumberError;
use crate::pipelines::{all_resolved_result, resolved_result, ResolvedPipeline};

verus! {

/// The message of an error names what is wrong: the entry, the name or the
/// provider at fault, and what there would have been.
pub proof fn law_messages_name_the_fault(e: BenchError)
    ensures
        match e {
            BenchError::NoQuestions => e@.message() == "config must contain 'queries' or 'chat'."@,
            BenchError::TwoModes => e@.message()
                == "config must not contain both 'queries' and 'chat' — pick one."@,
            BenchError::NoAgents => e@.message()
                == "config must contain at least one [[agents]] entry."@,
            BenchError::NoCorpora => e@.message()
                == "config must contain at least one 'corpus_dirs' entry."@,
            BenchError::MalformedCorpus { spec } => e@.message() == "corpus '"@ + spec@
                + "' must have the form 'name=path'"@,
            BenchError::MockCorpusSize { count, spec, reason } => e@.message()
                == "mock corpus size '"@ + count@ + "' in corpus '"@ + spec@ + "'"@,
            BenchError::UnknownChunker { name, available } => e@.message() == "unknown chunker '"@
                + name@ + "'. Available: "@ + available@,
            BenchError::UnknownPdfParser { name, available } => e@.message()
                == "unknown PDF parser '"@ + name@ + "'. Available: "@ + available@,
            BenchError::UnknownRanker { name } => e@.message() == "unknown ranker '"@ + name@
                + "'. Available: rrf, cosine, bm25, weighted, mmr"@,
            BenchError::UnsupportedChatProvider { provider } => e@.message() == "chat provider "@
                + provider@ + " is not supported by this build"@,
            BenchError::Embedder { explanation } => e@.message() == explanation@,
        },
{
}

/// An error has a cause of its own exactly where a number could not be read,
/// and the cause says why.
pub proof fn law_causes_explain_numbers(e: BenchError)
    ensures
        e@.source() is Some <==> e is MockCorpusSize,
        e matches BenchError::MockCorpusSize { reason, .. } ==> e@.source()->0 == match reason {
            NumberError::Empty => "cannot parse integer from empty string"@,
            NumberError::InvalidDigit => "invalid digit found in string"@,
            NumberError::TooLarge => "number too large to fit in target type"@,
        },
{
}

/// A result is seen as it is: a success with its texts, a failure with its
/// error.
pub proof fn law_results_are_seen_as_they_are(
    text: Result<String, BenchError>,
    list: Result<Vec<String>, BenchError>,
    one: Result<ResolvedPipeline, BenchError>,
    all: Result<Vec<ResolvedPipeline>, BenchError>,
    i: int,
)
    ensures
        text is Ok <==> text_result(text) is Ok,
        text is Ok ==> text_result(text)->Ok_0 == text->Ok_0@,
        text is Err ==> text_result(text)->Err_0 == text->Err_0@,
        list is Ok <==> texts_result(list) is Ok,
        list is Ok ==> texts_result(list)->Ok_0.len() == list->Ok_0@.len(),
        list is Ok && 0 <= i < list->Ok_0@.len() ==> texts_result(list)->Ok_0[i]
            == list->Ok_0@[i]@,
        list is Err ==> texts_result(list)->Err_0 == list->Err_0@,
        one is Ok <==> resolved_result(one) is Ok,
        one is Ok ==> resolved_result(one)->Ok_0 == one->Ok_0@,
        one is Err ==> resolved_result(one)->Err_0 == one->Err_0@,
        all is Ok <==> all_resolved_result(all) is Ok,
        all is Ok ==> all_resolved_result(all)->Ok_0.len() == all->Ok_0@.len(),
        all is Ok && 0 <= i < all->Ok_0@.len() ==> all_resolved_result(all)->Ok_0[i]
            == all->Ok_0@[i]@,
        all is Err ==> all_resolved_result(all)->Err_0 == all->Err_0@,
{
}

} // verus!
