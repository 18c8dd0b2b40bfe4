use fileshare::registry::{total_size, FileManager};

#[test]
fn push_assigns_fresh_indices() {
    let mut fm = FileManager::new();
    fm.push("a/one.txt".to_string(), 10, false);
    fm.push("a/two.txt".to_string(), 20, false);
    fm.push("a/three.txt".to_string(), 30, false);
    assert_eq!(fm.entries.len(), 3);
    assert_eq!(fm.entries[0].0, 0);
    assert_eq!(fm.entries[1].0, 1);
    assert_eq!(fm.entries[2].0, 2);
    assert_eq!(fm.next_index, 3);
}

#[test]
fn push_duplicate_path_is_noop() {
    let mut fm = FileManager::new();
    fm.push("a/one.txt".to_string(), 10, false);
    fm.push("a/one.txt".to_string(), 99, false);
    assert_eq!(fm.entries.len(), 1);
    assert_eq!(fm.next_index, 1);
    assert_eq!(fm.entries[0].1.size, 10);
}

#[test]
fn indices_not_reused_after_remove() {
    let mut fm = FileManager::new();
    fm.push("a/one.txt".to_string(), 10, false);
    fm.push("a/two.txt".to_string(), 20, false);
    fm.remove(1);
    fm.push("a/three.txt".to_string(), 30, false);
    // the removed index 1 is gone for good; the new entry gets 2
    assert_eq!(fm.entries.len(), 2);
    assert_eq!(fm.entries[0].0, 0);
    assert_eq!(fm.entries[1].0, 2);
}

#[test]
fn indices_not_reused_after_clear() {
    let mut fm = FileManager::new();
    fm.push("a/one.txt".to_string(), 10, false);
    fm.push("a/two.txt".to_string(), 20, false);
    let deleted = fm.clear();
    assert!(deleted.is_empty());
    assert_eq!(fm.entries.len(), 0);
    fm.push("a/three.txt".to_string(), 30, false);
    assert_eq!(fm.entries[0].0, 2);
}

#[test]
fn remove_returns_archive_path_for_deletion() {
    let mut fm = FileManager::new();
    fm.push("a/plain.txt".to_string(), 10, false);
    fm.push("./temp/packed.zip".to_string(), 20, true);
    assert_eq!(fm.remove(0), None);
    assert_eq!(fm.remove(1), Some("./temp/packed.zip".to_string()));
    assert!(fm.entries.is_empty());
}

#[test]
fn remove_unknown_index_is_noop() {
    let mut fm = FileManager::new();
    fm.push("a/one.txt".to_string(), 10, false);
    assert_eq!(fm.remove(7), None);
    assert_eq!(fm.entries.len(), 1);
}

#[test]
fn clear_reports_all_archive_files() {
    let mut fm = FileManager::new();
    fm.push("a/plain.txt".to_string(), 10, false);
    fm.push("./temp/one.zip".to_string(), 20, true);
    fm.push("./temp/two.zip".to_string(), 30, true);
    let deleted = fm.clear();
    assert_eq!(deleted, vec!["./temp/one.zip".to_string(), "./temp/two.zip".to_string()]);
    assert!(fm.entries.is_empty());
}

#[test]
fn get_and_increment_download_count() {
    let mut fm = FileManager::new();
    fm.push("a/one.txt".to_string(), 10, false);
    fm.push("a/two.txt".to_string(), 20, false);
    assert!(fm.get(5).is_none());
    let f = fm.get(1).unwrap();
    assert_eq!(f.path, "a/two.txt");
    assert_eq!(f.size, 20);
    assert_eq!(f.download_count, 0);
    fm.increment_download_count(1);
    fm.increment_download_count(1);
    fm.increment_download_count(9); // unknown: no effect
    assert_eq!(fm.get(1).unwrap().download_count, 2);
    assert_eq!(fm.get(0).unwrap().download_count, 0);
}

#[test]
fn jobs_sorted_by_start_time() {
    let mut fm = FileManager::new();
    fm.add_new_zip_compressing("x/c".to_string(), 300);
    fm.add_new_zip_compressing("x/a".to_string(), 100);
    fm.add_new_zip_compressing("x/b".to_string(), 200);
    let jobs = fm.get_zip_compressing();
    assert_eq!(jobs.len(), 3);
    assert_eq!(jobs[0].0, "x/a");
    assert_eq!(jobs[1].0, "x/b");
    assert_eq!(jobs[2].0, "x/c");
}

#[test]
fn job_progress_tracking() {
    let mut fm = FileManager::new();
    fm.add_new_zip_compressing("x/src".to_string(), 100);
    fm.set_zip_num_files(&"x/src".to_string(), 4);
    fm.update_zip_compressing(&"x/src".to_string());
    fm.update_zip_compressing(&"x/src".to_string());
    assert_eq!(fm.compressing_zips[0].1.num_files, 4);
    assert_eq!(fm.compressing_zips[0].1.progress, 2);
    // reports for a path with no job change nothing
    fm.set_zip_num_files(&"x/other".to_string(), 9);
    assert_eq!(fm.compressing_zips.len(), 1);
}

#[test]
fn total_size_sums_entries() {
    let mut fm = FileManager::new();
    fm.push("a/one.txt".to_string(), 10, false);
    fm.push("a/two.txt".to_string(), 32, false);
    assert_eq!(total_size(fm.get_view()), 42);
}
