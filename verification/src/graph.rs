//! The entity graph of a snapshot, as `sem_core` builds it, and what the
//! review reads from it: the direct neighbours of an entity and the number
//! of entities that a change to it may reach.

use vstd::prelude::*;
use sem_core::parser::graph::EntityGraph;

verus! {

/// `sem_core::parser::graph::EntityGraph`: the entities of a snapshot and
/// the references between them. What it holds is named by
/// `graph_entities`, `graph_dependents` and `graph_dependencies`.
#[verifier::external_type_specification]
#[verifier::external_body]
pub struct ExEntityGraph(sem_core::parser::graph::EntityGraph);

/// What a graph records of one entity.
pub struct EntityRecord {
    pub id: Seq<char>,
    pub name: Seq<char>,
    pub file_path: Seq<char>,
    pub start_line: nat,
    pub end_line: nat,
}

/// The entities of a graph, by the id they are filed under.
pub uninterp spec fn graph_entities(g: EntityGraph) -> Map<Seq<char>, EntityRecord>;

/// For each id, the ids of the entities that refer to it.
pub uninterp spec fn graph_dependents(g: EntityGraph) -> Map<Seq<char>, Seq<Seq<char>>>;

/// For each id, the ids of the entities that it refers to.
pub uninterp spec fn graph_dependencies(g: EntityGraph) -> Map<Seq<char>, Seq<Seq<char>>>;

/// A direct neighbour of an entity in the graph.
#[derive(Debug, Clone)]
pub struct Neighbor {
    pub id: String,
    pub name: String,
    pub file_path: String,
}

/// The ids that `links` holds for `id`; none where it holds no entry.
pub open spec fn linked(links: Map<Seq<char>, Seq<Seq<char>>>, id: Seq<char>) -> Seq<Seq<char>> {
    if links.contains_key(id) {
        links[id]
    } else {
        Seq::empty()
    }
}

/// Those of `ids` that the graph has an entity for, in order.
pub open spec fn known(entities: Map<Seq<char>, EntityRecord>, ids: Seq<Seq<char>>) -> Seq<
    Seq<char>,
> {
    ids.filter(|id: Seq<char>| entities.contains_key(id))
}

/// `found` holds the records of the known ones among `ids`, in order.
pub open spec fn are_records(
    entities: Map<Seq<char>, EntityRecord>,
    ids: Seq<Seq<char>>,
    found: Seq<Neighbor>,
) -> bool {
    &&& found.len() == known(entities, ids).len()
    &&& forall|k: int|
        0 <= k < found.len() ==> {
            let record = entities[known(entities, ids)[k]];
            &&& (#[trigger] found[k]).id@ == record.id
            &&& found[k].name@ == record.name
            &&& found[k].file_path@ == record.file_path
        }
}

/// `path` follows the links step by step.
pub open spec fn is_chain(links: Map<Seq<char>, Seq<Seq<char>>>, path: Seq<Seq<char>>) -> bool {
    forall|k: int|
        0 <= k < path.len() - 1 ==> linked(links, #[trigger] path[k]).contains(path[k + 1])
}

/// `to` can be reached from `from` in one step or more.
pub open spec fn reaches(links: Map<Seq<char>, Seq<Seq<char>>>, from: Seq<char>, to: Seq<char>) -> bool {
    exists|path: Seq<Seq<char>>|
        #![trigger is_chain(links, path)]
        path.len() >= 2 && path[0] == from && path.last() == to && is_chain(links, path)
}

/// The entities other than `id` that depend on it, directly or through
/// others.
pub open spec fn transitive_dependents(g: EntityGraph, id: Seq<char>) -> Set<Seq<char>> {
    Set::new(|other: Seq<char>| other != id && reaches(graph_dependents(g), id, other))
}

/// The number of transitive dependents of `id`, counted up to `cap`; none
/// for an id that the graph has no entity for.
pub open spec fn impact_of(g: EntityGraph, id: Seq<char>, cap: nat) -> nat {
    if graph_entities(g).contains_key(id) {
        let all = transitive_dependents(g, id).len();
        if all <= cap {
            all
        } else {
            cap
        }
    } else {
        0
    }
}

/// `EntityGraph::entities.len()`: the number of entities in the graph.
#[verifier::external_body]
fn count_entities(graph: &EntityGraph) -> (n: usize)
    ensures
        n == graph_entities(*graph).dom().len(),
{
    graph.entities.len()
}

/// `EntityGraph::get_dependents`: the entities that refer to `id`, in the
/// order of the graph's list for `id`; ids in that list that the graph has
/// no entity for are left out.
#[verifier::external_body]
fn direct_dependents(graph: &EntityGraph, id: &str) -> (found: Vec<Neighbor>)
    ensures
        are_records(graph_entities(*graph), linked(graph_dependents(*graph), id@), found@),
{
    graph.get_dependents(id).iter().map(|e| Neighbor {
        id: e.id.as_str().to_string(),
        name: e.name.clone(),
        file_path: e.file_path.clone(),
    }).collect()
}

/// `EntityGraph::get_dependencies`: the entities that `id` refers to, in
/// the order of the graph's list for `id`; ids in that list that the graph
/// has no entity for are left out.
#[verifier::external_body]
fn direct_dependencies(graph: &EntityGraph, id: &str) -> (found: Vec<Neighbor>)
    ensures
        are_records(graph_entities(*graph), linked(graph_dependencies(*graph), id@), found@),
{
    graph.get_dependencies(id).iter().map(|e| Neighbor {
        id: e.id.as_str().to_string(),
        name: e.name.clone(),
        file_path: e.file_path.clone(),
    }).collect()
}

/// `EntityGraph::impact_count`: a breadth-first walk along the dependents
/// from `id` that counts each entity it meets for the first time, `id`
/// itself not among them, and stops when the count reaches `cap`. For an id
/// that the graph has no entity for it gives 0.
#[verifier::external_body]
fn count_impact(graph: &EntityGraph, id: &str, cap: usize) -> (n: usize)
    ensures
        n == impact_of(*graph, id@, cap as nat),
{
    graph.impact_count(id, cap)
}

/// `EntityGraph::entities.get`: the first and the last line of the entity
/// filed under `id`, if there is one.
#[verifier::external_body]
fn entity_lines(graph: &EntityGraph, id: &str) -> (span: Option<(usize, usize)>)
    ensures
        span is Some <==> graph_entities(*graph).contains_key(id@),
        span matches Some(s) ==> s.0 == graph_entities(*graph)[id@].start_line && s.1
            == graph_entities(*graph)[id@].end_line,
{
    graph.entities.get(id).map(|e| (e.start_line, e.end_line))
}

/// The blast radius of the default scorer is counted up to this.
pub const IMPACT_CAP: usize = 10_000;

/// What the graph says of one changed entity.
#[derive(Debug, Clone)]
pub struct GraphFacts {
    /// The entities that refer to it.
    pub dependents: Vec<Neighbor>,
    /// The entities that it refers to.
    pub dependencies: Vec<Neighbor>,
    /// Its transitive dependents, counted up to `IMPACT_CAP`.
    pub blast_radius: usize,
    /// Its first and last line; both 0 where the graph does not hold it.
    pub start_line: usize,
    pub end_line: usize,
}

/// The number of entities in the graph.
pub fn entity_count(graph: &EntityGraph) -> (n: usize)
    ensures
        n == graph_entities(*graph).dom().len(),
{
    count_entities(graph)
}

/// The number of entities that a change to `id` may reach: its transitive
/// dependents, counted up to `cap`. Reaching the cap is no error.
pub fn impact_count(graph: &EntityGraph, id: &str, cap: usize) -> (n: usize)
    ensures
        n == impact_of(*graph, id@, cap as nat),
        n <= cap,
        n <= transitive_dependents(*graph, id@).len(),
{
    count_impact(graph, id, cap)
}

/// The impact count never falls when the cap rises, and never exceeds the
/// number of transitive dependents.
pub proof fn lemma_impact_is_monotone(g: EntityGraph, id: Seq<char>, low: nat, high: nat)
    requires
        low <= high,
    ensures
        impact_of(g, id, low) <= impact_of(g, id, high),
        impact_of(g, id, high) <= transitive_dependents(g, id).len(),
        impact_of(g, id, high) <= high,
{
}

/// What the graph says of the entity `id`.
pub fn graph_facts(graph: &EntityGraph, id: &str) -> (facts: GraphFacts)
    ensures
        are_records(graph_entities(*graph), linked(graph_dependents(*graph), id@), facts.dependents@),
        are_records(
            graph_entities(*graph),
            linked(graph_dependencies(*graph), id@),
            facts.dependencies@,
        ),
        facts.blast_radius == impact_of(*graph, id@, IMPACT_CAP as nat),
        graph_entities(*graph).contains_key(id@) ==> facts.start_line == graph_entities(
            *graph,
        )[id@].start_line && facts.end_line == graph_entities(*graph)[id@].end_line,
        !graph_entities(*graph).contains_key(id@) ==> facts.start_line == 0 && facts.end_line == 0,
{
    let dependents = direct_dependents(graph, id);
    let dependencies = direct_dependencies(graph, id);
    let blast_radius = count_impact(graph, id, IMPACT_CAP);
    let (start_line, end_line) = match entity_lines(graph, id) {
        Some(span) => span,
        None => (0, 0),
    };
    GraphFacts { dependents, dependencies, blast_radius, start_line, end_line }
}

} // verus!
