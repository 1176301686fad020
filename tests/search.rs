use desklab::embedding::hashed_embedding;
use desklab::indexing::{choose_candidate_text, plan_backfill, MissingEntity};
use desklab::rank::{clamp_score, rank_scored, Scored, ONE_BITS};
use desklab::search::{lexical_per_type_limit, merge_lexical_results, merge_semantic_results, per_type_limit, ResultKind, SearchResult, Timestamp};
use desklab::text::build_snippet;

fn hit(kind: ResultKind, id: &str) -> SearchResult {
    SearchResult {
        result_type: kind,
        id: id.to_string(),
        title: format!("title {}", id),
        snippet: String::new(),
        score: None,
        project_id: "p1".to_string(),
        project_name: "Project".to_string(),
        updated_at: Timestamp { secs: 0, nanos: 0 },
    }
}

fn keys(v: &[SearchResult]) -> Vec<(ResultKind, String)> {
    v.iter().map(|r| (r.result_type, r.id.clone())).collect()
}

fn unit(counts: &[i32]) -> Vec<f32> {
    let v: Vec<f32> = counts.iter().map(|&c| c as f32).collect();
    let norm = v.iter().map(|x| x * x).sum::<f32>().sqrt();
    v.iter().map(|x| x / norm).collect()
}

fn cosine(a: &[f32], b: &[f32]) -> f32 {
    a.iter().zip(b.iter()).map(|(x, y)| x * y).sum()
}

#[test]
fn quota_floor_applies_below_naive_division() {
    assert_eq!(per_type_limit(3), 2);
    assert_eq!(per_type_limit(0), 2);
    assert_eq!(per_type_limit(20), 6);
    assert_eq!(lexical_per_type_limit(20), 5);
    assert_eq!(lexical_per_type_limit(4), 2);
}

#[test]
fn duplicate_entity_is_kept_once_at_first_position() {
    let projects = vec![hit(ResultKind::Project, "p1")];
    let sources_sem = vec![hit(ResultKind::Source, "s1"), hit(ResultKind::Source, "s2")];
    let notes_sem = vec![hit(ResultKind::Note, "n1")];
    let sources_lex = vec![hit(ResultKind::Source, "s2"), hit(ResultKind::Source, "s3")];
    let notes_lex = vec![hit(ResultKind::Note, "n1"), hit(ResultKind::Project, "n1")];
    let r = merge_semantic_results(20, projects, sources_sem, notes_sem, sources_lex, notes_lex);
    assert_eq!(
        keys(&r),
        vec![
            (ResultKind::Project, "p1".to_string()),
            (ResultKind::Source, "s1".to_string()),
            (ResultKind::Source, "s2".to_string()),
            (ResultKind::Note, "n1".to_string()),
            (ResultKind::Source, "s3".to_string()),
            (ResultKind::Project, "n1".to_string()),
        ]
    );
}

#[test]
fn semantic_merge_applies_quota_and_budget() {
    let many: Vec<SearchResult> = (0..5).map(|i| hit(ResultKind::Source, &format!("s{}", i))).collect();
    let r = merge_semantic_results(3, Vec::new(), many, Vec::new(), Vec::new(), Vec::new());
    assert_eq!(keys(&r), vec![(ResultKind::Source, "s0".to_string()), (ResultKind::Source, "s1".to_string())]);
    let projects: Vec<SearchResult> = (0..3).map(|i| hit(ResultKind::Project, &format!("p{}", i))).collect();
    let notes: Vec<SearchResult> = (0..3).map(|i| hit(ResultKind::Note, &format!("n{}", i))).collect();
    let r = merge_semantic_results(3, projects, Vec::new(), notes, Vec::new(), Vec::new());
    assert_eq!(r.len(), 3);
    assert_eq!(r[2].id, "n0");
}

#[test]
fn lexical_merge_keeps_duplicates_and_order() {
    let p = vec![hit(ResultKind::Project, "a"), hit(ResultKind::Project, "b"), hit(ResultKind::Project, "c")];
    let s = vec![hit(ResultKind::Source, "a")];
    let n = vec![hit(ResultKind::Note, "a")];
    let c = vec![hit(ResultKind::Canvas, "a")];
    let r = merge_lexical_results(4, p, s, n, c);
    assert_eq!(r.len(), 4);
    assert_eq!(r[0].id, "a");
    assert_eq!(r[1].id, "b");
    assert_eq!(r[2].result_type, ResultKind::Source);
    assert_eq!(r[3].result_type.as_str(), "note");
}

#[test]
fn scores_are_clamped_to_unit_interval() {
    assert_eq!(clamp_score((-0.25f32).to_bits()), 0);
    assert_eq!(clamp_score(1.5f32.to_bits()), ONE_BITS);
    assert_eq!(clamp_score(f32::NAN.to_bits()), 0);
    assert_eq!(clamp_score(0.5f32.to_bits()), 0.5f32.to_bits());
    assert_eq!(f32::from_bits(ONE_BITS), 1.0);
}

#[test]
fn ranking_scenario_two_cats_before_airplane() {
    let q = unit(&hashed_embedding("cat"));
    let cands = [("A", "cat"), ("B", "cat"), ("C", "airplane")];
    let scored: Vec<Scored> = cands
        .iter()
        .map(|(id, text)| Scored {
            score: cosine(&q, &unit(&hashed_embedding(text))).to_bits(),
            result: hit(ResultKind::Source, id),
        })
        .collect();
    let r = rank_scored(scored, 2);
    assert_eq!(r.len(), 2);
    assert_eq!(r[0].id, "A");
    assert_eq!(r[1].id, "B");
    for x in &r {
        let s = f32::from_bits(x.score.unwrap());
        assert!((s - 1.0).abs() < 1e-5);
    }
}

#[test]
fn ranking_sorts_descending_and_keeps_ties_in_order() {
    let mk = |id: &str, s: f32| Scored { score: s.to_bits(), result: hit(ResultKind::Note, id) };
    let r = rank_scored(vec![mk("x", 0.2), mk("y", 0.9), mk("z", 0.2), mk("w", -0.4)], 10);
    let ids: Vec<&str> = r.iter().map(|x| x.id.as_str()).collect();
    assert_eq!(ids, vec!["y", "x", "z", "w"]);
    assert_eq!(r[3].score, Some(0));
    assert!(rank_scored(Vec::new(), 5).is_empty());
}

#[test]
fn snippet_is_trimmed_and_cut() {
    assert_eq!(build_snippet(None), "");
    assert_eq!(build_snippet(Some("   ".to_string())), "");
    assert_eq!(build_snippet(Some("  hi there \n".to_string())), "hi there");
    let long = "字".repeat(200);
    assert_eq!(build_snippet(Some(long)).chars().count(), 120);
}

#[test]
fn candidate_text_falls_back_to_label() {
    let label = "Report.pdf".to_string();
    assert_eq!(choose_candidate_text(&label, &None), "Report.pdf");
    assert_eq!(choose_candidate_text(&label, &Some("  ".to_string())), "Report.pdf");
    assert_eq!(choose_candidate_text(&label, &Some("body".to_string())), "body");
}

#[test]
fn backfill_skips_entities_without_tokens() {
    let missing = vec![
        MissingEntity { id: "s1".into(), project_id: "p".into(), label: "alpha".into(), content: None },
        MissingEntity { id: "s2".into(), project_id: "p".into(), label: "!!!".into(), content: Some(" ".into()) },
        MissingEntity { id: "n1".into(), project_id: "q".into(), label: "t".into(), content: Some("beta gamma".into()) },
    ];
    let plan = plan_backfill(missing);
    assert_eq!(plan.len(), 2);
    assert_eq!(plan[0].id, "s1");
    assert_eq!(plan[0].counts, hashed_embedding("alpha"));
    assert_eq!(plan[1].project_id, "q");
    assert_eq!(plan[1].counts, hashed_embedding("beta gamma"));
}
