use oxyde::memory::{is_priority_category, query_words_among, query_words_within, tags_in_query, MemoryCategory};
use oxyde::memory_store::{select_recalled, AddPlan, MemoryError, MemoryRecord, MemoryStore, RecallCandidate};

fn rec(id: &str, category: MemoryCategory, permanent: bool, tags: &[&str]) -> MemoryRecord<String> {
    MemoryRecord {
        id: id.to_string(),
        category,
        tags: tags.iter().map(|t| t.to_string()).collect(),
        permanent,
        access_count: 0,
        last_accessed: 0,
        data: format!("content of {}", id),
    }
}

fn ids(store: &MemoryStore<String>) -> Vec<String> {
    store.records().iter().map(|r| r.id.clone()).collect()
}

fn relevance(memory: &str, query: &str) -> f64 {
    let (matches, n) = query_words_among(memory, query);
    if n == 0 { 0.0 } else { matches as f64 / n as f64 }
}

#[test]
fn test_calculate_relevance() {
    let memory = "The player character found a rusty sword in the cave";
    let score1 = relevance(memory, "find sword cave");
    let score2 = relevance(memory, "craft potion magic");
    assert!(score1 > 0.6, "Score should be reasonably high for relevant query");
    assert!(score2 < 0.1, "Score should be low for irrelevant query");
    assert!(score1 > score2, "Relevant query should score higher");
    assert_eq!(query_words_among(memory, "find SWORD cave"), (2, 3));
    assert_eq!(query_words_among(memory, ""), (0, 0));
}

#[test]
fn word_and_tag_matches() {
    assert_eq!(query_words_within("The Blacksmith forges swords", "smith sword axe"), (2, 3));
    let tags = vec!["Forge".to_string(), "town".to_string(), "night".to_string()];
    assert_eq!(tags_in_query("Meet me at the forge in TOWN", &tags), 2);
    let names = vec!["Emotional".to_string(), "nonsense".to_string()];
    assert!(is_priority_category(&names, MemoryCategory::Emotional));
    assert!(!is_priority_category(&names, MemoryCategory::Semantic));
}

#[test]
fn store_appends_below_capacity_and_displaces_when_full() {
    let mut store: MemoryStore<String> = MemoryStore::new(2);
    assert_eq!(store.plan_add(MemoryCategory::Episodic, false), AddPlan::Append);
    store.add(rec("a", MemoryCategory::Episodic, false, &[]), None).unwrap();
    store.add(rec("b", MemoryCategory::Semantic, false, &[]), None).unwrap();
    assert_eq!(store.count(), 2);
    // Full: one non-permanent episodic memory is more than a quarter of 2.
    let plan = store.plan_add(MemoryCategory::Episodic, false);
    assert_eq!(plan, AddPlan::ReplaceInCategory);
    assert_eq!(store.displacement_candidates(plan, MemoryCategory::Episodic), vec![0]);
    store.add(rec("c", MemoryCategory::Episodic, false, &[]), Some(0)).unwrap();
    assert_eq!(ids(&store), vec!["b", "c"]);
    assert_eq!(store.touch_at("c", 7), Some(1));
    // A procedural memory: no procedural memory to displace, so any one goes.
    let plan = store.plan_add(MemoryCategory::Procedural, false);
    assert_eq!(plan, AddPlan::ReplaceAny);
    assert_eq!(store.displacement_candidates(plan, MemoryCategory::Procedural), vec![0, 1]);
    store.add(rec("d", MemoryCategory::Procedural, false, &[]), Some(1)).unwrap();
    assert_eq!(ids(&store), vec!["b", "d"]);
    // Permanent memories are always appended, beyond capacity.
    store.add(rec("p", MemoryCategory::Semantic, true, &[]), None).unwrap();
    assert_eq!(store.count(), 3);
}

#[test]
fn full_store_of_permanent_memories_refuses() {
    let mut store: MemoryStore<String> = MemoryStore::new(1);
    store.add(rec("p", MemoryCategory::Semantic, true, &[]), None).unwrap();
    assert_eq!(store.plan_add(MemoryCategory::Episodic, false), AddPlan::Refuse);
    assert_eq!(
        store.add(rec("x", MemoryCategory::Episodic, false, &[]), None),
        Err(MemoryError::AllPermanent)
    );
    assert_eq!(ids(&store), vec!["p"]);
}

#[test]
fn recall_updates_count_and_time() {
    let mut store: MemoryStore<String> = MemoryStore::new(10);
    store.add(rec("a", MemoryCategory::Episodic, false, &[]), None).unwrap();
    assert_eq!(store.touch_at("a", 1234), Some(0));
    assert_eq!(store.touch_at("a", 2000), Some(0));
    assert_eq!(store.record(0).access_count, 2);
    assert_eq!(store.record(0).last_accessed, 2000);
    assert_eq!(store.touch_at("zzz", 5), None);
    assert_eq!(store.touch("a"), Some(0));
    assert_eq!(store.record(0).access_count, 3);
}

#[test]
fn forgetting_spares_permanent_memories() {
    let mut store: MemoryStore<String> = MemoryStore::new(10);
    store.add(rec("a", MemoryCategory::Episodic, false, &["town"]), None).unwrap();
    store.add(rec("b", MemoryCategory::Episodic, true, &["town"]), None).unwrap();
    store.add(rec("c", MemoryCategory::Semantic, false, &["forest"]), None).unwrap();
    store.add(rec("d", MemoryCategory::Semantic, false, &["town", "night"]), None).unwrap();
    assert_eq!(store.positions_in_category(MemoryCategory::Episodic), vec![0, 1]);
    assert_eq!(store.positions_with_tag("town"), vec![0, 1, 3]);
    assert_eq!(store.forget("b"), Err(MemoryError::Permanent));
    assert_eq!(store.forget("nope"), Err(MemoryError::NotFound));
    assert_eq!(store.forget_by_tag("town"), 2);
    assert_eq!(ids(&store), vec!["b", "c"]);
    assert_eq!(store.forget_by_category(MemoryCategory::Episodic), 0);
    assert_eq!(store.forget("c"), Ok(()));
    assert_eq!(store.clear(), 0);
    assert_eq!(ids(&store), vec!["b"]);
}

#[test]
fn recall_limits_short_term_memories() {
    let c = |short_term: bool, important: bool| RecallCandidate { short_term, important };
    let cands = vec![c(true, false), c(true, false), c(false, false), c(true, true), c(true, false)];
    assert_eq!(select_recalled(&cands, 5, 1), vec![0, 2, 3]);
    assert_eq!(select_recalled(&cands, 2, 1), vec![0]);
    assert_eq!(select_recalled(&cands, 10, 5), vec![0, 1, 2, 3, 4]);
    assert_eq!(select_recalled(&cands, 0, 5), Vec::<usize>::new());
}
