use kyozai_kobo::backups::daily_backups_to_prune;

#[test]
fn only_daily_backups_beyond_the_ten_newest_are_pruned() {
    let mut names: Vec<String> = (1..=13).rev().map(|d| format!("kyozai-kobo-202401{:02}.db", d)).collect();
    names.push("kyozai-kobo-manual-20240101.db".into());
    names.push("kyozai-kobo-pre-migration-v14-20240101-120000.db".into());
    names.push("kyozai-kobo-2024010x.db".into());
    names.push("kyozai-kobo-20240101.db".into());
    let pruned = daily_backups_to_prune(&names);
    assert_eq!(
        pruned,
        vec![
            "kyozai-kobo-20240101.db".to_string(),
            "kyozai-kobo-20240102.db".to_string(),
            "kyozai-kobo-20240103.db".to_string(),
        ]
    );
}

#[test]
fn ten_or_fewer_daily_backups_are_all_kept() {
    let names: Vec<String> = (1..=10).map(|d| format!("kyozai-kobo-202402{:02}.db", d)).collect();
    assert!(daily_backups_to_prune(&names).is_empty());
    assert!(daily_backups_to_prune(&vec![]).is_empty());
}
