use neonsnake::score_file::{format_high_scores, parse_high_scores};
use neonsnake::scores::{rank_top_scores, register_high_score, HighScoreEntry};

fn e(score: u32, length: usize) -> HighScoreEntry {
    HighScoreEntry { score, length }
}

fn chars(s: &str) -> Vec<char> {
    s.chars().collect()
}

#[test]
fn register_orders_best_first() {
    let mut table = Vec::new();
    register_high_score(&mut table, e(50, 7));
    register_high_score(&mut table, e(120, 14));
    register_high_score(&mut table, e(80, 9));
    assert_eq!(table, vec![e(120, 14), e(80, 9), e(50, 7)]);
}

#[test]
fn register_breaks_ties_by_length() {
    let mut table = vec![e(100, 10)];
    register_high_score(&mut table, e(100, 12));
    register_high_score(&mut table, e(100, 8));
    assert_eq!(table, vec![e(100, 12), e(100, 10), e(100, 8)]);
}

#[test]
fn register_keeps_five() {
    let mut table = vec![e(90, 5), e(80, 5), e(70, 5), e(60, 5), e(50, 5)];
    register_high_score(&mut table, e(10, 5));
    assert_eq!(table, vec![e(90, 5), e(80, 5), e(70, 5), e(60, 5), e(50, 5)]);
    register_high_score(&mut table, e(75, 6));
    assert_eq!(table, vec![e(90, 5), e(80, 5), e(75, 6), e(70, 5), e(60, 5)]);
    register_high_score(&mut table, e(500, 30));
    assert_eq!(table[0], e(500, 30));
    assert_eq!(table.len(), 5);
}

#[test]
fn register_sorts_an_unsorted_table() {
    let mut table = vec![e(10, 1), e(30, 3), e(20, 2)];
    register_high_score(&mut table, e(25, 4));
    assert_eq!(table, vec![e(30, 3), e(25, 4), e(20, 2), e(10, 1)]);
}

#[test]
fn rank_top_scores_of_many() {
    let pool: Vec<HighScoreEntry> = (0..12u32).map(|i| e((i * 37) % 101, i as usize)).collect();
    let table = rank_top_scores(&pool);
    assert_eq!(table.len(), 5);
    for w in table.windows(2) {
        assert!(w[0].score > w[1].score || (w[0].score == w[1].score && w[0].length >= w[1].length));
    }
    assert_eq!(table[0].score, 94);
}

#[test]
fn parse_reads_lenient_lines() {
    let text = chars("120,14\n 90 , 8 \nbad line\n300,20,extra\n+5,1\n-1,2\n,3\n4,\n\n7;8\n");
    let table = parse_high_scores(&text);
    assert_eq!(table, vec![e(300, 20), e(120, 14), e(90, 8), e(5, 1)]);
}

#[test]
fn parse_trims_unicode_white_space() {
    let text = chars("\u{a0}42\u{3000},\t3\r\n");
    assert_eq!(parse_high_scores(&text), vec![e(42, 3)]);
}

#[test]
fn parse_rejects_out_of_range_scores() {
    let text = chars("4294967296,1\n4294967295,2\n18446744073709551616,3\n5,18446744073709551615\n");
    assert_eq!(parse_high_scores(&text), vec![e(4294967295, 2), e(5, 18446744073709551615)]);
}

#[test]
fn parse_ranks_and_cuts_to_five() {
    let text = chars("1,1\n2,2\n3,3\n4,4\n5,5\n6,6\n7,7");
    assert_eq!(parse_high_scores(&text), vec![e(7, 7), e(6, 6), e(5, 5), e(4, 4), e(3, 3)]);
}

#[test]
fn parse_of_empty_text() {
    assert!(parse_high_scores(&[]).is_empty());
    assert!(parse_high_scores(&chars("\n")).is_empty());
    assert!(parse_high_scores(&chars("+,1\n+")).is_empty());
}

#[test]
fn format_writes_one_line_per_run() {
    let text: String = format_high_scores(&[e(120, 14), e(90, 8), e(0, 0)]).into_iter().collect();
    assert_eq!(text, "120,14\n90,8\n0,0\n");
    let empty: String = format_high_scores(&[]).into_iter().collect();
    assert_eq!(empty, "\n");
}

#[test]
fn written_table_reads_back() {
    let table = vec![e(4294967295, 99), e(300, 20), e(300, 19), e(10, 5), e(0, 0)];
    assert_eq!(parse_high_scores(&format_high_scores(&table)), table);
    let empty: Vec<HighScoreEntry> = Vec::new();
    assert_eq!(parse_high_scores(&format_high_scores(&empty)), empty);
}
