use ragrig_bench::ingestion::{ingestion_walk, total_chunks};
use ragrig_bench::progress::{
    asking_chat, asking_query, asking_ranked_query, done_line, excerpt, indexing_line,
    ingesting_line, ready_line, reindex_line, stored_line, workspace_line,
};

#[test]
fn the_walk_covers_every_pair_once() {
    assert_eq!(ingestion_walk(2, 3), vec![(0, 0), (0, 1), (0, 2), (1, 0), (1, 1), (1, 2)]);
    assert!(ingestion_walk(0, 3).is_empty());
    assert!(ingestion_walk(3, 0).is_empty());
}

#[test]
fn chunk_counts_add_up() {
    assert_eq!(total_chunks(&[]), Some(0));
    assert_eq!(total_chunks(&[3, 0, 4]), Some(7));
    assert_eq!(total_chunks(&[usize::MAX, 0]), Some(usize::MAX));
    assert_eq!(total_chunks(&[usize::MAX, 1]), None);
}

#[test]
fn excerpts_have_sixty_bytes() {
    let long = "x".repeat(61);
    assert_eq!(excerpt(&long), "x".repeat(60));
    assert_eq!(excerpt("short"), "short");
    assert_eq!(excerpt(""), "");
    let exact = "ä".repeat(30);
    assert_eq!(excerpt(&exact), exact);
}

#[test]
fn excerpts_end_between_characters() {
    let odd = format!("x{}", "ä".repeat(30));
    assert_eq!(excerpt(&odd), format!("x{}", "ä".repeat(29)));
    assert_eq!(excerpt(&"ä".repeat(31)), "ä".repeat(30));
    assert_eq!(excerpt(&"€".repeat(25)), "€".repeat(20));
    assert_eq!(excerpt(&format!("xx{}", "€".repeat(25))), format!("xx{}", "€".repeat(19)));
    assert_eq!(excerpt(&format!("x{}", "😀".repeat(25))), format!("x{}", "😀".repeat(14)));
    let message = format!("{}é", "a".repeat(59));
    assert_eq!(asking_chat("agent", "docs", &message), format!("  agent / docs ← \"{}\"", "a".repeat(59)));
}

#[test]
fn questions_are_logged_with_their_place() {
    assert_eq!(
        asking_ranked_query("agent", "unpdf · token", "docs", "bm25", "Why?"),
        "  agent / unpdf · token / docs / bm25 ← \"Why?\""
    );
    assert_eq!(
        asking_query("agent", "unpdf · token", "docs", "Why?"),
        "  agent / unpdf · token / docs ← \"Why?\""
    );
    assert_eq!(asking_chat("agent", "docs", "Why?"), "  agent / docs ← \"Why?\"");
}

#[test]
fn ingestion_log() {
    assert_eq!(
        workspace_line("ws", "Mock", "mock-bow", 128),
        "Workspace: ws — embedder: Mock/mock-bow (128 dims)"
    );
    assert_eq!(
        reindex_line("ws/.ragrig_store"),
        "Reindex: removing existing vector database ws/.ragrig_store …"
    );
    assert_eq!(
        ingesting_line("unpdf · token", "docs"),
        "Ingesting pipeline 'unpdf · token' into corpus 'docs' …"
    );
    assert_eq!(indexing_line("unpdf · token"), "Indexing pipeline 'unpdf · token' …");
    assert_eq!(stored_line(40, 7), "  40 chunks in store (7 indexed in this run).");
    assert_eq!(ready_line(40, 7), "Store: 40 chunks ready (7 in this run).");
    assert_eq!(done_line(6, "ws"), "Done: 6 provenance(s) indexed in ws.");
}
