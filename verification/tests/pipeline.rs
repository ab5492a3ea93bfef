use music_clusters::aggregate::aggregate_clusters;
use music_clusters::pipeline::{run_pipeline, sorted_by_cluster, summarize};
use music_clusters::record::{ClusterStats, Song};
use music_clusters::stages::{k_means, normalize_features, pca};

fn song(d: i64, a: i64, e: i64, v: i64, t: i64, decade: &str) -> Song {
    Song::new(d, a, e, v, t, String::from(decade))
}

#[test]
fn feature_extraction_keeps_order() {
    let songs = vec![song(1, 2, 3, 4, 5, "1980s"), song(-6, 7, -8, 9, -10, "1990s")];
    let feats = normalize_features(&songs);
    assert_eq!(feats.len(), 2);
    assert_eq!(feats[0], vec![1, 2, 3, 4, 5]);
    assert_eq!(feats[1], vec![-6, 7, -8, 9, -10]);
}

#[test]
fn reduction_is_a_prefix_of_min_length() {
    let row: Vec<i64> = vec![10, 20, 30, 40, 50];
    for target_dims in 0..=6usize {
        let reduced = pca(&vec![row.clone()], target_dims);
        assert_eq!(reduced.len(), 1);
        let want = target_dims.min(5);
        assert_eq!(reduced[0].len(), want);
        assert_eq!(reduced[0][..], row[..want]);
    }
}

#[test]
fn reduction_handles_every_row_in_order() {
    let data = vec![vec![1, 2, 3, 4, 5], vec![6, 7, 8, 9, 10], vec![11, 12, 13, 14, 15]];
    let reduced = pca(&data, 2);
    assert_eq!(reduced, vec![vec![1, 2], vec![6, 7], vec![11, 12]]);
}

#[test]
fn assignment_is_sum_in_units_modulo_k() {
    // 3.47 + 1.53 = 5.00 units -> 5 % 3 == 2
    let data = vec![vec![347, 153]];
    assert_eq!(k_means(&data, 3), vec![2]);
    // 0.99 truncates to 0 units
    let data = vec![vec![99]];
    assert_eq!(k_means(&data, 3), vec![0]);
}

#[test]
fn assignment_lies_in_range_for_every_k() {
    let data = vec![
        vec![100, 250],
        vec![-300, 100],
        vec![0, 0],
        vec![999, 999, 999, 999, 999],
    ];
    for k in 1..=7usize {
        let ids = k_means(&data, k);
        assert_eq!(ids.len(), data.len());
        for id in ids {
            assert!(id < k);
        }
    }
}

#[test]
fn assignment_is_a_pure_function_of_the_row() {
    let data = vec![vec![123, 456], vec![123, 456]];
    let ids = k_means(&data, 5);
    assert_eq!(ids[0], ids[1]);
    let again = k_means(&data, 5);
    assert_eq!(ids, again);
}

#[test]
fn negative_sums_truncate_to_cluster_zero() {
    // -2.50 in units truncates toward zero, clamped at zero before the modulo
    let data = vec![vec![-250], vec![-1]];
    assert_eq!(k_means(&data, 3), vec![0, 0]);
}

#[test]
fn update_accumulates_sums_and_count() {
    let mut st = ClusterStats::new(7);
    assert_eq!(st.cluster, 7);
    assert_eq!(st.count, 0);
    st.update(&song(100, -50, 25, 0, 12000, "1970s"));
    st.update(&song(300, -50, 75, 0, 8000, "1980s"));
    assert_eq!(st.cluster, 7);
    assert_eq!(st.count, 2);
    assert_eq!(st.danceability, 400);
    assert_eq!(st.acousticness, -100);
    assert_eq!(st.energy, 100);
    assert_eq!(st.valence, 0);
    assert_eq!(st.tempo, 20000);
}

#[test]
fn averages_divide_sums_by_count() {
    let mut st = ClusterStats::new(0);
    st.update(&song(100, -5, 1, 0, 9000, "2000s"));
    st.update(&song(200, 0, 1, 0, 9100, "2000s"));
    let (d, a, e, v, t) = st.averages();
    assert_eq!(d, 150);
    // -5 / 2 truncates toward zero
    assert_eq!(a, -2);
    assert_eq!(e, 1);
    assert_eq!(v, 0);
    assert_eq!(t, 9050);
}

#[test]
fn averages_of_an_empty_accumulator_are_zero() {
    let st = ClusterStats::new(3);
    assert_eq!(st.averages(), (0, 0, 0, 0, 0));
}

#[test]
fn counts_add_up_to_the_number_of_records() {
    let songs = vec![
        song(100, 0, 0, 0, 0, "a"),
        song(250, 0, 0, 0, 0, "b"),
        song(300, 0, 0, 0, 0, "c"),
        song(475, 0, 0, 0, 0, "d"),
        song(-100, 0, 0, 0, 0, "e"),
    ];
    let stats = run_pipeline(&songs, 2, 4);
    let total: usize = stats.iter().map(|st| st.count).sum();
    assert_eq!(total, songs.len());
}

#[test]
fn each_average_recomputes_from_the_matching_records() {
    let songs = vec![
        song(100, 10, 0, 0, 0, "a"),  // 1 unit -> cluster 1
        song(200, 20, 0, 0, 0, "b"),  // 2 units -> cluster 0
        song(300, 30, 0, 0, 0, "c"),  // 3 units -> cluster 1
        song(500, 40, 0, 0, 0, "d"),  // 5 units -> cluster 1
    ];
    let stats = run_pipeline(&songs, 1, 2);
    for st in &stats {
        let mut count = 0usize;
        let mut dance = 0i64;
        let mut acoustic = 0i64;
        for s in &songs {
            let id = (s.danceability.max(0) / 100) as usize % 2;
            if id == st.cluster {
                count += 1;
                dance += s.danceability;
                acoustic += s.acousticness;
            }
        }
        assert_eq!(st.count, count);
        assert_eq!(st.danceability, dance);
        assert_eq!(st.acousticness, acoustic);
        let (d, a, _, _, _) = st.averages();
        assert_eq!(d, dance / count as i64);
        assert_eq!(a, acoustic / count as i64);
    }
}

#[test]
fn running_twice_gives_identical_output() {
    let songs = vec![
        song(123, -456, 789, 0, 11500, "1960s"),
        song(-321, 654, -987, 50, 9000, "1970s"),
        song(777, 0, 0, 0, 0, "1980s"),
    ];
    let first = summarize(&run_pipeline(&songs, 2, 3));
    let second = summarize(&run_pipeline(&songs, 2, 3));
    assert_eq!(first, second);
}

#[test]
fn end_to_end_example() {
    // 1.0, 2.0 and 0.0 danceability, all else zero
    let songs = vec![
        song(100, 0, 0, 0, 0, "X"),
        song(200, 0, 0, 0, 0, "X"),
        song(0, 0, 0, 0, 0, "X"),
    ];
    let stats = run_pipeline(&songs, 2, 3);
    assert_eq!(stats.len(), 3);
    // ids 1, 2, 0 in order of first appearance
    assert_eq!(stats[0].cluster, 1);
    assert_eq!(stats[1].cluster, 2);
    assert_eq!(stats[2].cluster, 0);
    for (st, d) in stats.iter().zip([100i64, 200, 0]) {
        assert_eq!(st.count, 1);
        assert_eq!(st.danceability, d);
        assert_eq!(st.averages(), (d, 0, 0, 0, 0));
    }
    let rows = summarize(&stats);
    assert_eq!(rows.len(), 3);
    for (row, (c, d)) in rows.iter().zip([(1usize, 100i64), (2, 200), (0, 0)]) {
        assert_eq!(row.cluster, c);
        assert_eq!(row.danceability, d);
        assert_eq!(row.acousticness, 0);
        assert_eq!(row.energy, 0);
        assert_eq!(row.valence, 0);
        assert_eq!(row.tempo, 0);
        assert_eq!(row.count, 1);
    }
}

#[test]
fn empty_input_yields_empty_summary() {
    let songs: Vec<Song> = Vec::new();
    let stats = run_pipeline(&songs, 2, 3);
    assert_eq!(stats.len(), 0);
    let rows = summarize(&stats);
    assert_eq!(rows.len(), 0);
}

#[test]
fn aggregation_pairs_records_with_ids_by_position() {
    let songs = vec![
        song(10, 0, 0, 0, 0, "a"),
        song(20, 0, 0, 0, 0, "b"),
        song(30, 0, 0, 0, 0, "c"),
    ];
    let clusters = vec![4usize, 9, 4];
    let stats = aggregate_clusters(&songs, &clusters);
    assert_eq!(stats.len(), 2);
    assert_eq!(stats[0].cluster, 4);
    assert_eq!(stats[0].count, 2);
    assert_eq!(stats[0].danceability, 40);
    assert_eq!(stats[1].cluster, 9);
    assert_eq!(stats[1].count, 1);
    assert_eq!(stats[1].danceability, 20);
}

#[test]
fn sorted_output_orders_by_cluster_id() {
    let songs = vec![
        song(100, 5, 0, 0, 0, "X"),
        song(200, 6, 0, 0, 0, "X"),
        song(0, 7, 0, 0, 0, "X"),
    ];
    let stats = run_pipeline(&songs, 2, 3);
    // first-appearance order is 1, 2, 0
    assert_eq!(stats.iter().map(|st| st.cluster).collect::<Vec<_>>(), vec![1, 2, 0]);
    let sorted = sorted_by_cluster(&stats);
    assert_eq!(sorted.iter().map(|st| st.cluster).collect::<Vec<_>>(), vec![0, 1, 2]);
    for st in &sorted {
        let unsorted = stats.iter().find(|o| o.cluster == st.cluster).unwrap();
        assert_eq!(st, unsorted);
    }
}
