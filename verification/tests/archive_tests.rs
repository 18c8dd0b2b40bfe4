use fileshare::archive::{archive_event_plan, is_valid_archive_source, temp_dir, zip_file_name,
    zip_path_for, file_name_of, ZipMessage};
use fileshare::registry::FileManager;

#[test]
fn zip_output_naming() {
    assert_eq!(temp_dir(), "./temp");
    assert_eq!(zip_file_name(&"home/photos".to_string()), "photos.zip");
    assert_eq!(zip_path_for(&"home/photos".to_string()), "./temp/photos.zip");
    // an existing extension is replaced
    assert_eq!(zip_path_for(&"a/b.tar".to_string()), "./temp/b.zip");
    // a leading dot alone marks no extension
    assert_eq!(zip_file_name(&".hidden".to_string()), ".hidden.zip");
    // backslash paths work too
    assert_eq!(zip_file_name(&"dir\\My Folder".to_string()), "My Folder.zip");
}

#[test]
fn file_name_extraction() {
    assert_eq!(file_name_of(&"a/b/c.txt".to_string()), "c.txt");
    assert_eq!(file_name_of(&"plain".to_string()), "plain");
    assert_eq!(file_name_of(&"trailing/".to_string()), "");
}

#[test]
fn source_validity() {
    assert!(is_valid_archive_source(&"home/photos".to_string()));
    assert!(is_valid_archive_source(&".hidden".to_string()));
    assert!(!is_valid_archive_source(&"trailing/".to_string()));
    assert!(!is_valid_archive_source(&"a/.".to_string()));
    assert!(!is_valid_archive_source(&"a/..".to_string()));
    assert!(!is_valid_archive_source(&"".to_string()));
}

#[test]
fn empty_folder_still_starts_and_finishes() {
    let src = "data/empty".to_string();
    let plan = archive_event_plan(&src, 0);
    assert_eq!(plan.len(), 2);
    assert!(matches!(&plan[0],
        ZipMessage::Started { path, num_files } if path == &src && *num_files == 0));
    assert!(matches!(&plan[1], ZipMessage::Done { path } if path == &src));
}

#[test]
fn plan_announces_then_reports_each_entry() {
    let src = "data/three".to_string();
    let plan = archive_event_plan(&src, 3);
    assert_eq!(plan.len(), 5);
    assert!(matches!(&plan[0],
        ZipMessage::Started { path, num_files } if path == &src && *num_files == 3));
    for m in &plan[1..4] {
        assert!(matches!(m, ZipMessage::Progress { path } if path == &src));
    }
    assert!(matches!(&plan[4], ZipMessage::Done { path } if path == &src));
}

#[test]
fn cancel_deletes_partial_output_and_job() {
    let mut fm = FileManager::new();
    let src = "data/photos".to_string();
    fm.add_new_zip_compressing(src.clone(), 100);
    assert!(fm.already_compressed(&src));
    let deleted = fm.zip_compressing_canceld(&src);
    assert_eq!(deleted, Some("./temp/photos.zip".to_string()));
    assert!(fm.compressing_zips.is_empty());
    assert!(!fm.already_compressed(&src));
}

#[test]
fn cancel_without_job_deletes_nothing() {
    let mut fm = FileManager::new();
    assert_eq!(fm.zip_compressing_canceld(&"data/photos".to_string()), None);
}

#[test]
fn finished_archive_rejects_rearchiving() {
    let mut fm = FileManager::new();
    let src = "data/photos".to_string();
    fm.add_new_zip_compressing(src.clone(), 100);
    fm.zip_compressing_done(&src, 12345);
    assert!(fm.compressing_zips.is_empty());
    assert_eq!(fm.entries.len(), 1);
    assert_eq!(fm.entries[0].1.path, "./temp/photos.zip");
    assert_eq!(fm.entries[0].1.size, 12345);
    assert!(fm.entries[0].1.is_zip);
    // a second request for the same source is rejected up front,
    // so no duplicate entry appears
    assert!(fm.already_compressed(&src));
    // completion again (e.g. a straggling event) adds no duplicate
    fm.zip_compressing_done(&src, 12345);
    assert_eq!(fm.entries.len(), 1);
}
