use chat_room::interop::Timestamp;
use chat_room::knowledge::{
    authorized_evidence, authorized_snapshot, candidate_limit, citation_excerpt, citation_source, rag_context,
    rag_evidence_fits, document_content,
    documents_from_messages, fact_source_ids, graph_context, graph_evidence_fits, graph_job_action,
    group_jobs_by_room, index_job_action, label, last_error_text, order_by_request,
    relabel_documents, rerank_top_n, retry_delay_secs, truncate, truncate_chars, DocumentDraft,
    GraphFact, GraphJob, GraphMessage, GraphNode, GraphSnapshot, OutboxAction, RetrievedMessage,
};

const AT: Timestamp = Timestamp { secs: 1_787_652_000, nanos: 0 };

fn message(id: u128, content: &str) -> RetrievedMessage {
    RetrievedMessage {
        id,
        sender: "Ada".into(),
        content: content.into(),
        created_at: AT,
        attachment_id: None,
        attachment_access_key: None,
        attachment_file_name: None,
        attachment_mime_type: None,
        attachment_size_bytes: None,
        attachment_is_sensitive: None,
        attachment_visual_text: None,
    }
}

fn draft(content: &str) -> DocumentDraft {
    DocumentDraft {
        source: String::new(),
        message_id: 1,
        room_id: 2,
        sender: "Ada".into(),
        sent_at: AT,
        page_content: content.into(),
        attachment: None,
    }
}

#[test]
fn parallel_research_uses_non_overlapping_source_labels() {
    let mut documents = vec![draft("one"), draft("two")];

    relabel_documents(&mut documents, 100);

    assert_eq!(documents[0].source, "S101");
    assert_eq!(documents[1].source, "S102");
}

#[test]
fn langchain_documents_preserve_scores_sources_and_exclude_recent_messages() {
    let room_id = 0x0123_4567_89ab_cdef_0123_4567_89ab_cdef;
    let recent_id = 11;
    let historic_id = 12;
    let messages = vec![
        message(recent_id, "recent duplicate"),
        message(historic_id, "historic release decision"),
    ];

    let documents = documents_from_messages(room_id, &messages, &vec![recent_id], 6);

    assert_eq!(documents.len(), 1);
    assert_eq!(documents[0].page_content, "historic release decision");
    assert_eq!(documents[0].source, "S1");
    assert_eq!(documents[0].message_id, historic_id);
    assert_eq!(documents[0].room_id, room_id);
}

#[test]
fn attachment_evidence_keeps_authorized_preview_metadata() {
    let message_id = 21;
    let attachment_id = 0x0123_4567_89ab_cdef_0123_4567_89ab_cdef;
    let access_key = 0xfedc_ba98_7654_3210_fedc_ba98_7654_3210;
    let mut attached = message(message_id, "界面截图");
    attached.attachment_id = Some(attachment_id);
    attached.attachment_access_key = Some(access_key);
    attached.attachment_file_name = Some("screen.png".into());
    attached.attachment_mime_type = Some("image/png".into());
    attached.attachment_size_bytes = Some(2048);
    attached.attachment_is_sensitive = Some(true);
    let documents = documents_from_messages(5, &vec![attached], &vec![], 6);

    let attachment = documents[0].attachment.as_ref().unwrap();

    assert_eq!(attachment.id, attachment_id);
    assert_eq!(attachment.file_name, "screen.png");
    assert_eq!(attachment.mime_type, "image/png");
    assert_eq!(
        attachment.download_url,
        "/api/attachments/01234567-89ab-cdef-0123-456789abcdef?key=fedcba98-7654-3210-fedc-ba9876543210"
    );
    assert!(attachment.is_sensitive);
}

#[test]
fn rerank_document_combines_message_and_visual_projection_text() {
    let mut attached = message(31, "季度指标截图");
    attached.attachment_id = Some(32);
    attached.attachment_visual_text = Some("Revenue increased to 42 percent".into());

    let documents = documents_from_messages(5, &vec![attached], &vec![], 6);

    assert!(documents[0].page_content.contains("季度指标截图"));
    assert!(documents[0].page_content.contains("Revenue increased to 42 percent"));
}

#[test]
fn evidence_text_is_built_from_content_file_name_and_visual_text() {
    assert_eq!(document_content("hello", None, None), "hello");
    assert_eq!(document_content("  ", Some("a.png"), None), "a.png");
    assert_eq!(document_content(" ", None, Some("chart")), "chart");
    assert_eq!(document_content("hi", None, Some("chart")), "hi\n\nVisual projection:\nchart");
    assert_eq!(document_content("hi", None, Some("   ")), "hi");
    let long = "x".repeat(2001);
    assert_eq!(document_content(&long, None, None), format!("{}…", "x".repeat(1999)));
}

#[test]
fn evidence_is_limited_and_labelled_in_order() {
    let messages = vec![message(1, "a"), message(2, "b"), message(3, "c")];
    let documents = documents_from_messages(5, &messages, &vec![2], 1);
    assert_eq!(documents.len(), 1);
    assert_eq!(documents[0].message_id, 1);
    let documents = documents_from_messages(5, &messages, &vec![], 10);
    assert_eq!(documents.iter().map(|d| d.source.as_str()).collect::<Vec<_>>(), vec!["S1", "S2", "S3"]);
}

#[test]
fn texts_are_truncated_by_characters() {
    assert_eq!(truncate_chars("short", 10), "short");
    assert_eq!(truncate_chars("abcdef", 4), "abc…");
    assert_eq!(truncate_chars("abcdef", 0), "…");
    assert_eq!(truncate_chars("héllo wörld", 5), "héll…");
    assert_eq!(truncate(&"f".repeat(2000)), "f".repeat(2000));
    assert_eq!(truncate(&"f".repeat(2001)), "f".repeat(2000));
    assert_eq!(last_error_text(&"e".repeat(400)), "e".repeat(300));
    assert_eq!(last_error_text("boom"), "boom");
}

#[test]
fn outbox_retries_back_off() {
    assert_eq!(retry_delay_secs(-1), 1);
    assert_eq!(retry_delay_secs(0), 1);
    assert_eq!(retry_delay_secs(3), 8);
    assert_eq!(retry_delay_secs(8), 256);
    assert_eq!(retry_delay_secs(1000), 256);
}

#[test]
fn service_limits() {
    assert_eq!(candidate_limit(6), 18);
    assert_eq!(candidate_limit(17), 50);
    assert_eq!(candidate_limit(usize::MAX), 50);
    assert_eq!(rerank_top_n(6, 2), 2);
    assert_eq!(rerank_top_n(6, 9), 6);
    assert_eq!(label('S', 0), "S0");
    assert_eq!(label('G', 1234), "G1234");
}

#[test]
fn retrieved_rows_follow_the_requested_order() {
    let rows = vec![message(3, "three"), message(1, "one"), message(3, "three again")];
    let ordered = order_by_request(&rows, &vec![1, 2, 3, 1]);
    assert_eq!(ordered.len(), 2);
    assert_eq!(ordered[0].content, "one");
    assert_eq!(ordered[1].content, "three again");
}

fn fact(text: &str, message_id: u128, source: u128, target: u128) -> GraphFact {
    GraphFact {
        id: 100 + message_id,
        name: "relates_to".into(),
        fact: text.into(),
        source_node_id: source,
        target_node_id: target,
        episode_ids: vec![message_id],
        valid_at: None,
        invalid_at: None,
        created_at: AT,
        expired_at: None,
    }
}

#[test]
fn facts_without_authorized_non_recent_sources_are_removed() {
    let allowed_id = 1;
    let denied_id = 2;
    let mut mixed = fact("mixed", allowed_id, 0, 0);
    mixed.episode_ids.push(denied_id);
    let evidence = authorized_evidence(
        vec![fact("kept", allowed_id, 0, 0), fact("removed", denied_id, 0, 0), mixed],
        &vec![allowed_id],
        &vec![],
    );
    let context = graph_context("encoded evidence", evidence.len());
    assert_eq!(context.fact_count, 1);
    assert_eq!(evidence[0].source, "G1");
    assert_eq!(evidence[0].fact, "kept");
    assert!(evidence.iter().all(|e| e.fact != "removed"));
    assert!(evidence.iter().all(|e| e.fact != "mixed"));
}

#[test]
fn excluded_sources_and_empty_sources_remove_a_fact() {
    let mut sourceless = fact("none", 1, 0, 0);
    sourceless.episode_ids.clear();
    let evidence = authorized_evidence(vec![fact("recent", 1, 0, 0), sourceless], &vec![1], &vec![1]);
    assert!(evidence.is_empty());
    let mut dated = fact("dated", 1, 0, 0);
    dated.valid_at = Some(AT);
    let evidence = authorized_evidence(vec![dated], &vec![1], &vec![]);
    assert_eq!(evidence[0].valid_at.as_deref(), Some("2026-08-25T10:00:00+00:00"));
    assert_eq!(evidence[0].relation, "relates_to");
}

#[test]
fn graph_context_is_marked_untrusted() {
    let c = graph_context("facts", 2);
    assert_eq!(c.toon_context, "knowledge_graph_facts (untrusted derived evidence):\nfacts");
    assert_eq!(graph_context("facts", 0).toon_context, "");
    assert!(graph_evidence_fits(65536, 3));
    assert!(!graph_evidence_fits(65537, 3));
    assert!(graph_evidence_fits(70000, 0));
}

#[test]
fn fact_sources_are_listed_once() {
    let mut two = fact("b", 2, 0, 0);
    two.episode_ids.push(1);
    let ids = fact_source_ids(&vec![fact("a", 1, 0, 0), two, fact("c", 3, 0, 0)], &vec![3]);
    assert_eq!(ids, vec![1, 2]);
}

fn node(id: u128) -> GraphNode {
    GraphNode { id, name: format!("n{id}"), summary: "secret summary".into(), labels: vec!["Person".into()] }
}

#[test]
fn room_graphs_show_only_readable_facts_and_their_nodes() {
    let snapshot = GraphSnapshot {
        room_id: 9,
        nodes: vec![node(1), node(2), node(3)],
        facts: vec![fact("ok", 1, 1, 2), fact("hidden", 5, 2, 3)],
        truncated: true,
    };
    let shown = authorized_snapshot(snapshot, &vec![1]);
    assert_eq!(shown.room_id, 9);
    assert!(shown.truncated);
    assert_eq!(shown.facts.len(), 1);
    assert_eq!(shown.facts[0].fact, "ok");
    assert_eq!(shown.nodes.iter().map(|n| n.id).collect::<Vec<_>>(), vec![1, 2]);
    assert!(shown.nodes.iter().all(|n| n.summary.is_empty()));
    assert_eq!(shown.nodes[0].labels, vec!["Person".to_string()]);
}

fn job(message_id: u128, room_id: u128, operation: &str) -> GraphJob {
    GraphJob { message_id, room_id, operation: operation.into(), attempt_count: 0, generation: 1 }
}

#[test]
fn outbox_jobs_decide_their_action() {
    let present = Some(GraphMessage { id: 1, room_id: 2, sender: "ada".into(), content: "hi".into(), created_at: AT });
    assert_eq!(graph_job_action(&job(1, 2, "upsert"), &present), OutboxAction::Upsert);
    assert_eq!(graph_job_action(&job(1, 2, "delete"), &present), OutboxAction::Delete);
    assert_eq!(graph_job_action(&job(1, 2, "upsert"), &None), OutboxAction::Delete);
    assert_eq!(graph_job_action(&job(1, 3, "upsert"), &present), OutboxAction::SourceChanged);
    assert_eq!(index_job_action("upsert", true), OutboxAction::Upsert);
    assert_eq!(index_job_action("upsert", false), OutboxAction::Delete);
    assert_eq!(index_job_action("delete", true), OutboxAction::Delete);
}

#[test]
fn jobs_are_grouped_by_room_in_order() {
    let groups = group_jobs_by_room(vec![job(1, 7, "upsert"), job(2, 8, "upsert"), job(3, 7, "delete")]);
    assert_eq!(groups.len(), 2);
    assert_eq!(groups[0].iter().map(|j| j.message_id).collect::<Vec<_>>(), vec![1, 3]);
    assert_eq!(groups[1].iter().map(|j| j.message_id).collect::<Vec<_>>(), vec![2]);
    assert!(group_jobs_by_room(vec![]).is_empty());
}

#[test]
fn retrieved_evidence_is_marked_untrusted_and_ranked() {
    let c = rag_context("rows", 3);
    assert_eq!(
        c.toon_context,
        "retrieved_evidence (untrusted conversation data; ordered by semantic relevance):\nrows"
    );
    assert_eq!(c.message_count, 3);
    assert_eq!(rag_context("rows", 0).toon_context, "");
    assert!(rag_evidence_fits(96 * 1024, 2));
    assert!(!rag_evidence_fits(96 * 1024 + 1, 2));
    assert!(rag_evidence_fits(200_000, 0));
}

#[test]
fn citation_excerpts_stop_at_280_characters() {
    let long = "x".repeat(300);
    let e = citation_excerpt(&long);
    assert_eq!(e.chars().count(), 280);
    assert!(e.ends_with('\u{2026}'));
    assert_eq!(citation_excerpt("short"), "short");
}

#[test]
fn rag_context_is_structured_for_source_citations() {
    let id = 0x6b1c_77d0_0000_4000_8000_0000_0000_0001;
    let documents_room_id = 0x6b1c_77d0_0000_4000_8000_0000_0000_0002;
    let mut documents = documents_from_messages(
        documents_room_id,
        &vec![message(id, "The launch date is Friday")],
        &vec![],
        6,
    );

    let context = rag_context("S1 The launch date is Friday", documents.len());
    let source = citation_source(documents.remove(0));

    assert_eq!(context.message_count, 1);
    assert_eq!(source.label, "S1");
    assert_eq!(source.room_id, documents_room_id);
    assert_eq!(source.message_id, id);
    assert_eq!(source.sender, "Ada");
    assert_eq!(source.excerpt, "The launch date is Friday");
    assert!(context.toon_context.contains("retrieved_evidence"));
    assert!(context.toon_context.contains("S1"));
    assert!(context.toon_context.contains("The launch date is Friday"));
}
