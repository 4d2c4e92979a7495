use leaf_collector::merge::top_k_partial_hits;
use leaf_collector::partial_hit::{partial_hit_le, PartialHit};

fn hit(sorting_field_value: u64, split_id: &str, segment_ord: u32, doc_id: u32) -> PartialHit {
    PartialHit {
        sorting_field_value,
        split_id: split_id.to_string(),
        segment_ord,
        doc_id,
    }
}

#[test]
fn test_merge_partial_hits_no_tie() {
    let make_doc = |sorting_field_value: u64| PartialHit {
        sorting_field_value,
        split_id: "split1".to_string(),
        segment_ord: 0u32,
        doc_id: 0u32,
    };
    assert_eq!(
        top_k_partial_hits(vec![make_doc(1u64), make_doc(3u64), make_doc(2u64),], 2),
        vec![make_doc(3), make_doc(2)]
    );
}

#[test]
fn test_merge_partial_hits_with_tie() {
    let make_hit_given_split_id = |split_id: u64| PartialHit {
        sorting_field_value: 0u64,
        split_id: format!("split_{split_id}"),
        segment_ord: 0u32,
        doc_id: 0u32,
    };
    assert_eq!(
        top_k_partial_hits(
            vec![
                make_hit_given_split_id(1u64),
                make_hit_given_split_id(3u64),
                make_hit_given_split_id(2u64),
            ],
            2
        ),
        vec![make_hit_given_split_id(1), make_hit_given_split_id(2)]
    );
}

#[test]
fn test_top_k_of_nothing() {
    assert_eq!(top_k_partial_hits(Vec::new(), 3), Vec::new());
}

#[test]
fn test_top_k_with_zero_limit() {
    assert_eq!(
        top_k_partial_hits(vec![hit(1, "a", 0, 0), hit(2, "a", 0, 1)], 0),
        Vec::new()
    );
}

#[test]
fn test_top_k_with_limit_past_the_hits() {
    assert_eq!(
        top_k_partial_hits(vec![hit(1, "a", 0, 0), hit(2, "a", 0, 1)], 10),
        vec![hit(2, "a", 0, 1), hit(1, "a", 0, 0)]
    );
}

#[test]
fn test_top_k_breaks_ties_by_split_then_segment_then_doc() {
    let hits = vec![
        hit(7, "split_b", 0, 0),
        hit(7, "split_a", 1, 0),
        hit(7, "split_a", 0, 9),
        hit(7, "split_a", 0, 3),
        hit(8, "split_z", 9, 9),
        hit(7, "split_", 5, 5),
    ];
    assert_eq!(
        top_k_partial_hits(hits, 6),
        vec![
            hit(8, "split_z", 9, 9),
            hit(7, "split_", 5, 5),
            hit(7, "split_a", 0, 3),
            hit(7, "split_a", 0, 9),
            hit(7, "split_a", 1, 0),
            hit(7, "split_b", 0, 0),
        ]
    );
}

#[test]
fn test_top_k_of_many_hits_against_a_sort() {
    let mut hits: Vec<PartialHit> = Vec::new();
    let mut state: u64 = 0x2545_F491_4F6C_DD1D;
    for _ in 0..700 {
        state ^= state << 13;
        state ^= state >> 7;
        state ^= state << 17;
        let split_id = format!("split_{}", (state >> 8) % 5);
        hits.push(hit(state % 7, &split_id, ((state >> 16) % 3) as u32, ((state >> 24) % 40) as u32));
    }
    let mut expected = hits.clone();
    expected.sort_by(|left, right| {
        let left_key = (
            u64::MAX - left.sorting_field_value,
            &left.split_id,
            left.segment_ord,
            left.doc_id,
        );
        let right_key = (
            u64::MAX - right.sorting_field_value,
            &right.split_id,
            right.segment_ord,
            right.doc_id,
        );
        left_key.cmp(&right_key)
    });
    assert_eq!(top_k_partial_hits(hits.clone(), 700), expected);
    expected.truncate(33);
    assert_eq!(top_k_partial_hits(hits, 33), expected);
}

#[test]
fn test_top_k_does_not_depend_on_input_order() {
    let hits = vec![
        hit(3, "s2", 0, 1),
        hit(3, "s1", 0, 1),
        hit(9, "s1", 1, 4),
        hit(0, "s3", 0, 0),
        hit(3, "s1", 0, 0),
    ];
    let expected = vec![hit(9, "s1", 1, 4), hit(3, "s1", 0, 0), hit(3, "s1", 0, 1)];
    let mut reversed = hits.clone();
    reversed.reverse();
    let mut rotated = hits.clone();
    rotated.rotate_left(2);
    assert_eq!(top_k_partial_hits(hits, 3), expected);
    assert_eq!(top_k_partial_hits(reversed, 3), expected);
    assert_eq!(top_k_partial_hits(rotated, 3), expected);
}

#[test]
fn test_split_ids_are_ordered_as_byte_strings() {
    // A proper prefix comes first; bytes compare unsigned.
    assert!(partial_hit_le(&hit(1, "split", 0, 0), &hit(1, "split_1", 0, 0)));
    assert!(!partial_hit_le(&hit(1, "split_1", 0, 0), &hit(1, "split", 0, 0)));
    assert!(partial_hit_le(&hit(1, "split_10", 0, 0), &hit(1, "split_2", 0, 0)));
    assert!(partial_hit_le(&hit(1, "z", 0, 0), &hit(1, "\u{e9}", 0, 0)));
    assert!(!partial_hit_le(&hit(1, "\u{e9}", 0, 0), &hit(1, "z", 0, 0)));
    assert!(partial_hit_le(&hit(1, "", 0, 0), &hit(1, "a", 0, 0)));
}

#[test]
fn test_partial_hit_le_agrees_with_the_composite_key() {
    let hits = vec![
        hit(0, "", 0, 0),
        hit(0, "a", 0, 0),
        hit(0, "a", 0, 1),
        hit(0, "a", 1, 0),
        hit(0, "ab", 0, 0),
        hit(0, "b", 0, 0),
        hit(1, "a", 0, 0),
        hit(u64::MAX, "a", 0, 0),
    ];
    for left in hits.iter() {
        for right in hits.iter() {
            let left_key = (
                u64::MAX - left.sorting_field_value,
                left.split_id.as_str(),
                left.segment_ord,
                left.doc_id,
            );
            let right_key = (
                u64::MAX - right.sorting_field_value,
                right.split_id.as_str(),
                right.segment_ord,
                right.doc_id,
            );
            assert_eq!(partial_hit_le(left, right), left_key <= right_key);
        }
    }
}
