use qingjian::candidates::{
    english_candidate, leading_english, sentence_insert_position, split_upper_lower, Candidate,
    CandidateKind,
};

fn candidate(text: &str, kind: CandidateKind, syllables: &[&str]) -> Candidate {
    Candidate {
        text: text.to_owned(),
        kind,
        syllables: syllables.iter().map(|s| s.to_string()).collect(),
        reading: None,
    }
}

#[test]
fn the_sentence_goes_after_the_leading_english() {
    let items = vec![
        english_candidate("rust", vec![]),
        english_candidate("rusty", vec![]),
        candidate("如", CandidateKind::Chinese, &["ru"]),
    ];
    assert_eq!(leading_english(&items), 2);
    let sentence = candidate("如是", CandidateKind::Sentence, &["ru", "shi"]);
    assert_eq!(sentence_insert_position(&sentence, &items), 2);
    let other = candidate("入世", CandidateKind::Chinese, &["ru", "shi"]);
    assert_eq!(sentence_insert_position(&other, &items), 2);
}

#[test]
fn a_sentence_that_reads_differently_follows_the_first_word() {
    let items = vec![
        candidate("内部", CandidateKind::Chinese, &["nei", "bu"]),
        candidate("那不", CandidateKind::Chinese, &["na", "bu"]),
    ];
    let sentence = candidate("那不是威廉", CandidateKind::Sentence, &["na", "bu", "shi", "wei", "lian"]);
    assert_eq!(sentence_insert_position(&sentence, &items), 1);
    let continues = candidate("内部分析", CandidateKind::Sentence, &["nei", "bu", "fen", "xi"]);
    assert_eq!(sentence_insert_position(&continues, &items), 0);
    let same_length = candidate("那步", CandidateKind::Sentence, &["na", "bu"]);
    assert_eq!(sentence_insert_position(&same_length, &items), 0);
}

#[test]
fn typed_input_splits_into_case_runs() {
    let segs = split_upper_lower("CPan");
    let parts: Vec<(&str, bool)> = segs.iter().map(|s| (s.text.as_str(), s.is_upper)).collect();
    assert_eq!(parts, [("CP", true), ("an", false)]);
    assert!(split_upper_lower("").is_empty());
    let parts: Vec<(String, bool)> = split_upper_lower("abCD1e")
        .into_iter()
        .map(|s| (s.text, s.is_upper))
        .collect();
    assert_eq!(
        parts,
        [("ab".to_owned(), false), ("CD".to_owned(), true), ("1e".to_owned(), false)]
    );
}
