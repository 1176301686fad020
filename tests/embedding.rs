use desklab::codec::{deserialize_embedding, serialize_embedding};
use desklab::embedding::{hash_token, hashed_embedding, is_cjk, tokenize, EMBEDDING_DIM, MAX_TEXT_CHARS};
use desklab::text::chars_of;

fn token(s: &str) -> Vec<char> {
    s.chars().collect()
}

fn unit(counts: &[i32]) -> Vec<f32> {
    let mut v: Vec<f32> = counts.iter().map(|&c| c as f32).collect();
    let norm = v.iter().map(|x| x * x).sum::<f32>().sqrt();
    if norm > 0.0 {
        for x in v.iter_mut() {
            *x /= norm;
        }
    }
    v
}

#[test]
fn empty_and_blank_text_have_no_fingerprint() {
    assert!(hashed_embedding("").is_empty());
    assert!(hashed_embedding("   ").is_empty());
    assert!(hashed_embedding("\t\n \u{3000}").is_empty());
    assert!(hashed_embedding("!!! ---").is_empty());
}

#[test]
fn fingerprint_has_fixed_width_for_mixed_scripts() {
    assert_eq!(hashed_embedding("数据 data 2024").len(), EMBEDDING_DIM);
}

#[test]
fn fingerprint_is_deterministic() {
    let a = hashed_embedding("hello world");
    let b = hashed_embedding("hello world");
    assert_eq!(a, b);
    assert_eq!(a.len(), 384);
    let n: f32 = unit(&a).iter().map(|x| x * x).sum::<f32>().sqrt();
    assert!((n - 1.0).abs() < 1e-5);
}

#[test]
fn tokens_split_on_non_alphanumerics_and_cjk() {
    let t = tokenize(&chars_of("Hello, WORLD-42 世界x"));
    let expected: Vec<Vec<char>> = vec![token("hello"), token("world"), token("42"), token("世"), token("界"), token("x")];
    assert_eq!(t, expected);
    assert!(is_cjk('中'));
    assert!(!is_cjk('a'));
    assert!(tokenize(&chars_of("  ")).is_empty());
}

#[test]
fn token_hash_is_fnv1a_of_utf8() {
    assert_eq!(hash_token(&token("")), 0xcbf2_9ce4_8422_2325);
    assert_eq!(hash_token(&token("a")), 0xaf63_dc4c_8601_ec8c);
    assert_eq!(hash_token(&token("世")), {
        let mut h: u64 = 0xcbf2_9ce4_8422_2325;
        for b in "世".as_bytes() {
            h ^= *b as u64;
            h = h.wrapping_mul(0x100_0000_01b3);
        }
        h
    });
}

#[test]
fn counts_follow_token_hashes() {
    let v = hashed_embedding("cat cat dog");
    let mut expected = vec![0i32; EMBEDDING_DIM];
    for t in ["cat", "cat", "dog"] {
        let h = hash_token(&token(t));
        let sign = if (h >> 1) & 1 == 0 { 1 } else { -1 };
        expected[(h % 384) as usize] += sign;
    }
    assert_eq!(v, expected);
}

#[test]
fn only_the_first_characters_count() {
    let mut long = " ".repeat(5);
    long.push_str(&"a ".repeat(MAX_TEXT_CHARS / 2));
    long.push_str("zzz");
    let with_tail = hashed_embedding(&long);
    let mut short = " ".repeat(5);
    short.push_str(&"a ".repeat(MAX_TEXT_CHARS / 2));
    assert_eq!(with_tail, hashed_embedding(&short));
}

#[test]
fn serialization_round_trips_bit_patterns() {
    let v: Vec<u32> = (0..384u32).map(|i| (i as f32 / 7.0 - 3.0).to_bits()).collect();
    let bytes = serialize_embedding(&v);
    assert_eq!(bytes.len(), 4 * 384);
    assert_eq!(&bytes[0..4], &(-3.0f32).to_le_bytes());
    assert_eq!(deserialize_embedding(&bytes), v);
}

#[test]
fn malformed_blob_is_no_vector() {
    assert!(deserialize_embedding(&vec![1, 2, 3, 4, 5]).is_empty());
    assert_eq!(deserialize_embedding(&vec![0, 0, 0x80, 0x3f]), vec![1.0f32.to_bits()]);
}

fn cosine(a: &[f32], b: &[f32]) -> f32 {
    if a.is_empty() || b.is_empty() || a.len() != b.len() {
        return 0.0;
    }
    a.iter().zip(b.iter()).map(|(x, y)| x * y).sum()
}

#[test]
fn test_embed_text_empty() {
    assert!(hashed_embedding("").is_empty());
    assert!(hashed_embedding("   ").is_empty());
}

#[test]
fn test_embed_text_shape() {
    let embedding = hashed_embedding("Hello 世界");
    assert_eq!(embedding.len(), EMBEDDING_DIM);
}

#[test]
fn test_cosine_similarity() {
    let a = unit(&hashed_embedding("test query"));
    let b = unit(&hashed_embedding("test query"));
    let c = unit(&hashed_embedding("completely different"));
    assert!(cosine(&a, &b) > cosine(&a, &c));
}

#[test]
fn self_similarity_is_highest() {
    let t = unit(&hashed_embedding("neural network training"));
    let u = unit(&hashed_embedding("banana bread recipe"));
    assert!(cosine(&t, &t) >= cosine(&t, &u));
    assert!((cosine(&t, &t) - 1.0).abs() < 1e-5);
}
