//! Records, match scores and the ranking of records against a query.
use vstd::prelude::*;
use vstd::string::StringExecFns;
use std::cmp::Ordering;
use crate::similarity::{edit_distance, jaro_winkler, jaro_winkler_bits, levenshtein, ONE_BITS};

verus! {

/// Steps an egg takes to hatch, derived from its cycle count.
pub struct EggCycleStats {
    pub cycles: u16,
    pub max_steps: u16,
    pub min_steps: u16,
}

/// Steps that one egg cycle takes.
pub const EGG_CYCLE_FACTOR: u16 = 257;

impl EggCycleStats {
    /// The step range of an egg that hatches after `cycles` cycles: at most
    /// `cycles` full cycles, and more than `cycles - 1` of them.
    pub fn new(cycles: u16) -> (r: EggCycleStats)
        requires
            1 <= cycles,
            cycles * EGG_CYCLE_FACTOR <= u16::MAX,
        ensures
            r.cycles == cycles,
            r.max_steps == cycles * EGG_CYCLE_FACTOR,
            r.min_steps == (cycles - 1) * EGG_CYCLE_FACTOR + 1,
    {
        EggCycleStats {
            cycles,
            max_steps: cycles * EGG_CYCLE_FACTOR,
            min_steps: ((cycles - 1) * EGG_CYCLE_FACTOR) + 1,
        }
    }
}

/// How rare a creature is.
#[derive(Clone, Copy, Debug, PartialEq, Eq, Structural)]
pub enum PokemonStatus {
    Normal,
    Legendary,
    Mythical,
    SubLegendary,
}

/// The name shown for a status; sub-legendary creatures show as legendary.
pub open spec fn status_name(status: PokemonStatus) -> Seq<char> {
    match status {
        PokemonStatus::Legendary | PokemonStatus::SubLegendary => "Legendary"@,
        PokemonStatus::Mythical => "Mythical"@,
        PokemonStatus::Normal => "Normal"@,
    }
}

impl PokemonStatus {
    pub fn display_name(&self) -> (r: String)
        ensures
            r@ == status_name(*self),
    {
        let name = match self {
            PokemonStatus::Legendary | PokemonStatus::SubLegendary => "Legendary",
            PokemonStatus::Mythical => "Mythical",
            PokemonStatus::Normal => "Normal",
        };
        String::from_str(name)
    }
}

/// Text of `s` with every character mapped to lower case, as
/// `str::to_lowercase` computes it.
pub uninterp spec fn lower_of(s: Seq<char>) -> Seq<char>;

/// Relies on `str::to_lowercase`: the result depends on the characters
/// alone, and every character maps to at least one character, so exactly the
/// empty string maps to the empty string.
#[verifier::external_body]
pub(crate) fn lowercase(s: &str) -> (r: String)
    ensures
        r@ == lower_of(s@),
        r@.len() == 0 <==> s@.len() == 0,
{
    s.to_lowercase()
}

/// How well a record's name matches a query.
///
/// `distance` is the edit distance (lower is closer); `similarity_bits` is
/// the bit pattern of the Jaro-Winkler similarity, a value in `[0.0, 1.0]`
/// (higher is closer). For such values the bit patterns order exactly as the
/// values do.
#[derive(Clone, Copy, Debug, PartialEq, Eq, Structural)]
pub struct MatchScore {
    pub distance: usize,
    pub similarity_bits: u64,
}

/// The similarity of two normalized strings; two empty strings have
/// similarity `0.0` by convention.
pub open spec fn similarity_of(value: Seq<char>, query: Seq<char>) -> u64 {
    if value.len() == 0 && query.len() == 0 {
        0
    } else {
        jaro_winkler_bits(value, query)
    }
}

/// The score of a normalized value against a normalized query.
pub open spec fn score_of(value: Seq<char>, query: Seq<char>) -> MatchScore {
    MatchScore {
        distance: edit_distance(value, query) as usize,
        similarity_bits: similarity_of(value, query),
    }
}

/// `a` ranks strictly ahead of `b`: higher similarity, or equal similarity
/// and lower distance.
pub open spec fn ranks_ahead(a: MatchScore, b: MatchScore) -> bool {
    a.similarity_bits > b.similarity_bits || (a.similarity_bits == b.similarity_bits
        && a.distance < b.distance)
}

/// `a` and `b` take the same place in the ranking order.
pub open spec fn ranks_level(a: MatchScore, b: MatchScore) -> bool {
    a.similarity_bits == b.similarity_bits && a.distance == b.distance
}

/// `a` does not rank behind `b`.
pub open spec fn ranks_no_worse(a: MatchScore, b: MatchScore) -> bool {
    !ranks_ahead(b, a)
}

impl MatchScore {
    /// Scores a normalized value (the candidate) against a normalized query.
    /// The similarity is always taken in this direction, value first; it is
    /// not promised to be symmetric. The distance is (see
    /// `lemma_distance_symmetric`).
    pub fn new(value: &str, query: &str) -> (r: MatchScore)
        ensures
            r == score_of(value@, query@),
            r.distance == edit_distance(value@, query@),
            r.similarity_bits <= ONE_BITS,
            value@ == query@ && value@.len() > 0 ==> r.distance == 0 && r.similarity_bits
                == ONE_BITS,
            value@.len() > 0 && query@.len() == 0 ==> r.distance == value@.len()
                && r.similarity_bits == 0,
    {
        let distance = levenshtein(value, query);
        let similarity = jaro_winkler(value, query);
        let similarity_bits = if value.unicode_len() == 0 && query.unicode_len() == 0 {
            0
        } else {
            similarity
        };
        proof {
            if value@ == query@ {
                crate::similarity::lemma_edit_distance_self(value@);
            }
        }
        MatchScore { distance, similarity_bits }
    }

    /// Orders two scores best first: higher similarity comes first, and on
    /// equal similarity the lower distance does.
    pub fn compare(a: &MatchScore, b: &MatchScore) -> (r: Ordering)
        ensures
            r == Ordering::Less <==> ranks_ahead(*a, *b),
            r == Ordering::Greater <==> ranks_ahead(*b, *a),
            r == Ordering::Equal <==> ranks_level(*a, *b),
    {
        if a.similarity_bits > b.similarity_bits {
            Ordering::Less
        } else if a.similarity_bits < b.similarity_bits {
            Ordering::Greater
        } else if a.distance < b.distance {
            Ordering::Less
        } else if a.distance > b.distance {
            Ordering::Greater
        } else {
            Ordering::Equal
        }
    }

    /// Whether `a` ranks strictly ahead of `b`.
    pub fn is_ahead(a: &MatchScore, b: &MatchScore) -> (r: bool)
        ensures
            r == ranks_ahead(*a, *b),
    {
        match MatchScore::compare(a, b) {
            Ordering::Less => true,
            _ => false,
        }
    }
}

/// One record of the dataset: its display name, used for matching, and the
/// rest of the record, which matching does not look at.
pub struct Entity<P> {
    pub name: String,
    pub data: P,
}

/// A record paired with its score against a query.
pub struct PokeMatch<P> {
    pub pokemon: Entity<P>,
    pub score: MatchScore,
}

/// The score of each record's normalized name against a normalized query.
pub open spec fn scores_of<P>(entities: Seq<Entity<P>>, query: Seq<char>) -> Seq<MatchScore> {
    Seq::new(entities.len(), |i: int| score_of(lower_of(entities[i].name@), query))
}

/// `order` lists every position of `scores` once, best first, and keeps
/// positions with the same score in their input order: the result of a
/// stable sort of `scores` by the ranking order.
pub open spec fn is_stable_ranking(scores: Seq<MatchScore>, order: Seq<int>) -> bool {
    &&& order.len() == scores.len()
    &&& forall|j: int| 0 <= j < order.len() ==> 0 <= #[trigger] order[j] < scores.len()
    &&& forall|j: int, k: int|
        0 <= j < k < order.len() ==> #[trigger] order[j] != #[trigger] order[k]
    &&& forall|j: int, k: int|
        0 <= j < k < order.len() ==> ranks_no_worse(
            scores[#[trigger] order[j]],
            scores[#[trigger] order[k]],
        )
    &&& forall|j: int, k: int|
        0 <= j < k < order.len() && ranks_level(scores[#[trigger] order[j]], scores[#[trigger] order[k]])
            ==> order[j] < order[k]
}

/// Lists `matches` as the first entries of a stable ranking of `entities`
/// against `query`.
pub open spec fn is_ranked_prefix<P>(
    matches: Seq<PokeMatch<P>>,
    entities: Seq<Entity<P>>,
    query: Seq<char>,
    order: Seq<int>,
) -> bool {
    &&& is_stable_ranking(scores_of(entities, query), order)
    &&& matches.len() <= order.len()
    &&& forall|j: int|
        0 <= j < matches.len() ==> (#[trigger] matches[j]).pokemon == entities[order[j]]
            && matches[j].score == scores_of(entities, query)[order[j]]
}

/// The distance part of a score does not depend on which string is the
/// value and which is the query.
pub proof fn lemma_distance_symmetric(a: Seq<char>, b: Seq<char>)
    ensures
        score_of(a, b).distance == score_of(b, a).distance,
{
    crate::similarity::lemma_edit_distance_symmetric(a, b);
}

proof fn lemma_ahead_of_no_worse(a: MatchScore, b: MatchScore, c: MatchScore)
    requires
        ranks_ahead(a, b),
        ranks_no_worse(b, c),
    ensures
        ranks_ahead(a, c),
{
}

/// Ranks `entities` by how well their names match `query`, best first, and
/// keeps the first `limit` of them.
///
/// Names and query are compared in lower case. Records with the same score
/// keep their relative input order.
pub fn search_by_name<P>(entities: Vec<Entity<P>>, query: &str, limit: usize) -> (r: Vec<
    PokeMatch<P>,
>)
    ensures
        r@.len() == if entities@.len() < limit {
            entities@.len() as int
        } else {
            limit as int
        },
        exists|order: Seq<int>| is_ranked_prefix(r@, entities@, lower_of(query@), order),
        forall|j: int|
            0 <= j < r@.len() - 1 ==> ranks_no_worse(r@[j].score, #[trigger] r@[j + 1].score),
        query@.len() == 0 ==> forall|j: int|
            0 <= j < r@.len() ==> (#[trigger] r@[j]).score.distance == lower_of(
                r@[j].pokemon.name@,
            ).len() && (r@[j].pokemon.name@.len() > 0 ==> r@[j].score.similarity_bits == 0),
{
    let ghost input = entities@;
    let ghost q = lower_of(query@);
    let ghost scores = scores_of(input, q);
    let search_query = lowercase(query);
    let mut rest = entities;
    let mut results: Vec<PokeMatch<P>> = Vec::new();
    let ghost mut order: Seq<int> = Seq::empty();
    let n = rest.len();
    let mut i: usize = 0;
    while i < n
        invariant
            n == input.len(),
            scores == scores_of(input, q),
            q == lower_of(query@),
            scores.len() == n,
            0 <= i <= n,
            rest@ == input.subrange(i as int, n as int),
            search_query@ == q,
            q.len() == 0 <==> query@.len() == 0,
            results@.len() == i,
            order.len() == i,
            forall|j: int| 0 <= j < i ==> 0 <= #[trigger] order[j] < i,
            forall|j: int, k: int| 0 <= j < k < i ==> #[trigger] order[j] != #[trigger] order[k],
            forall|j: int, k: int|
                0 <= j < k < i ==> ranks_no_worse(
                    scores[#[trigger] order[j]],
                    scores[#[trigger] order[k]],
                ),
            forall|j: int, k: int|
                0 <= j < k < i && ranks_level(scores[#[trigger] order[j]], scores[#[trigger] order[k]])
                    ==> order[j] < order[k],
            forall|j: int|
                0 <= j < i ==> (#[trigger] results@[j]).pokemon == input[order[j]]
                    && results@[j].score == scores[order[j]],
            query@.len() == 0 ==> forall|j: int|
                0 <= j < i ==> (#[trigger] results@[j]).score.distance == lower_of(
                    results@[j].pokemon.name@,
                ).len() && (results@[j].pokemon.name@.len() > 0
                    ==> results@[j].score.similarity_bits == 0),
        decreases n - i,
    {
        let entity = rest.remove(0);
        assert(entity == input[i as int]);
        let name = lowercase(entity.name.as_str());
        let score = MatchScore::new(name.as_str(), search_query.as_str());
        assert(scores[i as int] == score_of(lower_of(input[i as int].name@), q));
        assert(score == scores[i as int]);
        let mut pos: usize = 0;
        while pos < results.len() && !MatchScore::is_ahead(&score, &results[pos].score)
            invariant
                0 <= pos <= results@.len(),
                forall|j: int| 0 <= j < pos ==> ranks_no_worse(#[trigger] results@[j].score, score),
            decreases results@.len() - pos,
        {
            pos = pos + 1;
        }
        proof {
            if pos < results@.len() {
                assert(ranks_ahead(score, results@[pos as int].score));
            }
        }
        let ghost old_results = results@;
        let ghost old_order = order;
        results.insert(pos, PokeMatch { pokemon: entity, score });
        proof {
            order = old_order.insert(pos as int, i as int);
            assert forall|j: int| 0 <= j < i + 1 implies #[trigger] results@[j].score == scores[order[j]]
                && results@[j].pokemon == input[order[j]] by {
                if j < pos {
                    assert(results@[j] == old_results[j]);
                } else if j > pos {
                    assert(results@[j] == old_results[j - 1]);
                }
            }
            assert forall|j: int, k: int| 0 <= j < k < i + 1 implies ranks_no_worse(
                scores[#[trigger] order[j]],
                scores[#[trigger] order[k]],
            ) by {
                if j < pos && k == pos {
                    assert(ranks_no_worse(old_results[j].score, score));
                    assert(old_results[j].score == scores[old_order[j]]);
                } else if j < pos && k > pos {
                    assert(ranks_no_worse(scores[old_order[j]], scores[old_order[k - 1]]));
                } else if j == pos {
                    if k == pos + 1 {
                        assert(old_results[pos as int].score == scores[old_order[pos as int]]);
                    } else {
                        assert(ranks_no_worse(scores[old_order[pos as int]], scores[old_order[k - 1]]));
                        assert(old_results[pos as int].score == scores[old_order[pos as int]]);
                        lemma_ahead_of_no_worse(score, old_results[pos as int].score, scores[old_order[k - 1]]);
                    }
                } else if j > pos {
                    assert(ranks_no_worse(scores[old_order[j - 1]], scores[old_order[k - 1]]));
                }
            }
            assert forall|j: int, k: int|
                0 <= j < k < i + 1 && ranks_level(scores[#[trigger] order[j]], scores[#[trigger] order[k]])
                    implies order[j] < order[k] by {
                if j < pos && k > pos {
                    assert(old_order[j] < old_order[k - 1]);
                } else if j == pos {
                    assert(old_results[pos as int].score == scores[old_order[pos as int]]);
                    if k > pos + 1 {
                        assert(ranks_no_worse(scores[old_order[pos as int]], scores[old_order[k - 1]]));
                    }
                } else if j > pos {
                    assert(old_order[j - 1] < old_order[k - 1]);
                }
            }
        }
        i = i + 1;
    }
    results.truncate(limit);
    proof {
        assert(input.subrange(0, n as int) == input);
        assert(is_ranked_prefix(results@, input, q, order));
    }
    results
}

/// Why the dataset could not be loaded. Rows are counted from zero, in
/// source order, without the header.
#[derive(Clone, Copy, Debug, PartialEq, Eq, Structural)]
pub enum LoadError {
    /// The row misses a column or holds a value of the wrong type.
    Malformed { row: usize },
    /// The row's name is empty.
    EmptyName { row: usize },
}

/// Accepts the decoded records when every name is non-empty, and otherwise
/// reports the first record with an empty name. The records are handed back
/// unchanged.
pub fn validate_records<P>(entities: Vec<Entity<P>>) -> (r: Result<Vec<Entity<P>>, LoadError>)
    ensures
        r is Ok <==> forall|i: int| 0 <= i < entities@.len() ==> (#[trigger] entities@[i]).name@.len() > 0,
        r matches Ok(v) ==> v@ == entities@,
        r matches Err(e) ==> e matches LoadError::EmptyName { row } && row < entities@.len()
            && entities@[row as int].name@.len() == 0
            && forall|i: int| 0 <= i < row ==> (#[trigger] entities@[i]).name@.len() > 0,
{
    let mut i: usize = 0;
    while i < entities.len()
        invariant
            0 <= i <= entities@.len(),
            forall|j: int| 0 <= j < i ==> (#[trigger] entities@[j]).name@.len() > 0,
        decreases entities@.len() - i,
    {
        if entities[i].name.as_str().unicode_len() == 0 {
            return Err(LoadError::EmptyName { row: i });
        }
        i = i + 1;
    }
    Ok(entities)
}

} // verus!
