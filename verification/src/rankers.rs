//! Rankers: which to sweep, how they are labelled, what they stand for.

use vstd::prelude::*;
use vstd::string::StringExecFns;
use crate::config::{RankerConfig, RankerConfigView};
use crate::error::{BenchError, BenchErrorView};
use crate::text::same_text;

verus! {

/// The views of a list of ranker configurations.
pub open spec fn ranker_views(v: Seq<RankerConfig>) -> Seq<RankerConfigView> {
    Seq::new(v.len(), |i: int| v[i]@)
}

/// The rankers that a list stands for: itself, or the default ranker alone
/// where it is empty.
pub open spec fn effective_rankers(specs: Seq<RankerConfigView>) -> Seq<RankerConfigView> {
    if specs.len() == 0 {
        seq![RankerConfigView::default_ranker()]
    } else {
        specs
    }
}

/// The ranker list to sweep.
pub fn ranker_configs(specs: &[RankerConfig]) -> (r: Vec<RankerConfig>)
    ensures
        ranker_views(r@) == effective_rankers(ranker_views(specs@)),
{
    let mut r: Vec<RankerConfig> = Vec::new();
    if specs.len() == 0 {
        r.push(RankerConfig::default());
        assert(ranker_views(r@) =~= effective_rankers(ranker_views(specs@)));
        return r;
    }
    let mut i: usize = 0;
    while i < specs.len()
        invariant
            i <= specs@.len(),
            r@.len() == i,
            forall|k: int| 0 <= k < i ==> (#[trigger] r@[k])@ == specs@[k]@,
        decreases specs@.len() - i,
    {
        r.push(
            RankerConfig {
                name: specs[i].name.clone(),
                alpha: specs[i].alpha,
                lambda: specs[i].lambda,
            },
        );
        i += 1;
    }
    assert(ranker_views(r@) =~= ranker_views(specs@));
    r
}

/// The label of a ranker: its name, or `rrf` where it has none.
pub open spec fn label_of_ranker(cfg: RankerConfigView) -> Seq<char> {
    if cfg.name == ""@ {
        "rrf"@
    } else {
        cfg.name
    }
}

/// Display label for a ranker configuration.
pub fn ranker_label(cfg: &RankerConfig) -> (r: String)
    ensures
        r@ == label_of_ranker(cfg@),
{
    if same_text(cfg.name.as_str(), "") {
        String::from_str("rrf")
    } else {
        cfg.name.clone()
    }
}

/// A ranker with its parameters, as the bit patterns of `f64` values.
#[derive(Clone, Copy, Debug, PartialEq, Eq, Structural)]
pub enum RankerChoice {
    /// Reciprocal rank fusion with its default constant.
    HybridRrf,
    /// Weighted fusion: 0 = BM25 alone, 1 = cosine alone.
    Weighted { alpha: u64 },
    /// Diversity re-ranking over [`RankerChoice::HybridRrf`].
    Mmr { lambda: u64 },
}

/// The bit pattern of 0.0.
pub const BITS_ZERO: u64 = 0x0000_0000_0000_0000;

/// The bit pattern of 0.5.
pub const BITS_HALF: u64 = 0x3FE0_0000_0000_0000;

/// The bit pattern of 1.0.
pub const BITS_ONE: u64 = 0x3FF0_0000_0000_0000;

/// A parameter, or one half where it is left out.
pub open spec fn or_half(parameter: Option<u64>) -> u64 {
    match parameter {
        Some(bits) => bits,
        None => BITS_HALF,
    }
}

/// What a configuration stands for.
pub open spec fn ranker_choice(cfg: RankerConfigView) -> Result<RankerChoice, BenchErrorView> {
    if cfg.name == ""@ || cfg.name == "rrf"@ {
        Ok(RankerChoice::HybridRrf)
    } else if cfg.name == "cosine"@ {
        Ok(RankerChoice::Weighted { alpha: BITS_ONE })
    } else if cfg.name == "bm25"@ {
        Ok(RankerChoice::Weighted { alpha: BITS_ZERO })
    } else if cfg.name == "weighted"@ {
        Ok(RankerChoice::Weighted { alpha: or_half(cfg.alpha) })
    } else if cfg.name == "mmr"@ {
        Ok(RankerChoice::Mmr { lambda: or_half(cfg.lambda) })
    } else {
        Err(BenchErrorView::UnknownRanker { name: cfg.name })
    }
}

/// Resolves a ranker configuration.
pub fn build_ranker(cfg: &RankerConfig) -> (r: Result<RankerChoice, BenchError>)
    ensures
        match r {
            Ok(choice) => ranker_choice(cfg@) == Ok::<RankerChoice, BenchErrorView>(choice),
            Err(e) => ranker_choice(cfg@) == Err::<RankerChoice, BenchErrorView>(e@),
        },
{
    let name: &str = cfg.name.as_str();
    if same_text(name, "") || same_text(name, "rrf") {
        Ok(RankerChoice::HybridRrf)
    } else if same_text(name, "cosine") {
        Ok(RankerChoice::Weighted { alpha: BITS_ONE })
    } else if same_text(name, "bm25") {
        Ok(RankerChoice::Weighted { alpha: BITS_ZERO })
    } else if same_text(name, "weighted") {
        let alpha: u64 = match cfg.alpha {
            Some(bits) => bits,
            None => BITS_HALF,
        };
        Ok(RankerChoice::Weighted { alpha })
    } else if same_text(name, "mmr") {
        let lambda: u64 = match cfg.lambda {
            Some(bits) => bits,
            None => BITS_HALF,
        };
        Ok(RankerChoice::Mmr { lambda })
    } else {
        Err(BenchError::UnknownRanker { name: cfg.name.clone() })
    }
}

// ── Laws ────────────────────────────────────────────────────────────────────

/// Without rankers in the configuration there is one, labelled `rrf`, which
/// is hybrid reciprocal rank fusion.
pub proof fn law_no_rankers_mean_rrf()
    ensures
        effective_rankers(Seq::empty()).len() == 1,
        label_of_ranker(effective_rankers(Seq::empty())[0]) == "rrf"@,
        ranker_choice(effective_rankers(Seq::empty())[0]) == Ok::<RankerChoice, BenchErrorView>(
            RankerChoice::HybridRrf,
        ),
{
    reveal_strlit("");
    assert(RankerConfigView::default_ranker().name =~= ""@);
}

/// A label never hides what is swept: rankers with the same label and the same
/// parameters are the same choice.
pub proof fn law_label_determines_the_ranker(a: RankerConfigView, b: RankerConfigView)
    requires
        label_of_ranker(a) == label_of_ranker(b),
        a.alpha == b.alpha,
        a.lambda == b.lambda,
        ranker_choice(a) is Ok,
    ensures
        ranker_choice(a) == ranker_choice(b),
{
    reveal_strlit("");
    reveal_strlit("rrf");
    reveal_strlit("cosine");
    reveal_strlit("bm25");
    reveal_strlit("weighted");
    reveal_strlit("mmr");
}

} // verus!
