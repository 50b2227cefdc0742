use tui_dotfile_manager::restore::{backup_file_name, split_backup_filename, BackupEntry};
use tui_dotfile_manager::stamp::current_stamp;

fn entry_of_size(file_size: u64) -> BackupEntry {
    BackupEntry {
        original_name: "test".to_string(),
        timestamp: 0,
        backup_path: "/tmp/test".to_string(),
        target_path: "/tmp/target".to_string(),
        file_size,
    }
}

#[test]
fn test_parse_backup_filename_valid() {
    let filename = ".bashrc_20241114_143052.123456";
    let result = BackupEntry::parse_backup_filename(filename);

    assert!(result.is_some());
    let (name, _timestamp) = result.unwrap();
    assert_eq!(name, ".bashrc");
}

#[test]
fn test_parse_backup_filename_with_underscores() {
    let filename = "my_config_file_20241114_143052.123456";
    let result = BackupEntry::parse_backup_filename(filename);

    assert!(result.is_some());
    let (name, _timestamp) = result.unwrap();
    assert_eq!(name, "my_config_file");
}

#[test]
fn test_parse_backup_filename_invalid() {
    let invalid_filenames = vec![
        "invalid",
        ".bashrc_invalid_timestamp",
        "no_timestamp",
        ".bashrc_20241114",
    ];

    for filename in invalid_filenames {
        assert!(
            BackupEntry::parse_backup_filename(filename).is_none(),
            "Should fail for: {}",
            filename
        );
    }
}

#[test]
fn test_format_size() {
    let entry = entry_of_size(1024);
    assert_eq!(entry.format_size(), "1.0 KB");
}

#[test]
fn format_size_units_and_rounding() {
    assert_eq!(entry_of_size(0).format_size(), "0 B");
    assert_eq!(entry_of_size(1023).format_size(), "1023 B");
    assert_eq!(entry_of_size(1536).format_size(), "1.5 KB");
    assert_eq!(entry_of_size(1048575).format_size(), "1024.0 KB");
    assert_eq!(entry_of_size(1048576).format_size(), "1.0 MB");
    assert_eq!(entry_of_size(5 * 1024 * 1024 * 1024).format_size(), "5.0 GB");
    // A tie at one decimal goes to the even digit, as `{:.1}` does.
    assert_eq!(entry_of_size(1024 + 1024 / 4 * 1).format_size(), format!("{:.1} KB", 1280f64 / 1024.0));
    assert_eq!(entry_of_size(1024 * 5 / 4 + 64).format_size(), format!("{:.1} KB", 1344f64 / 1024.0));
    for size in [1100u64, 2047, 3000, 1_500_000, 999_999_999, 123_456_789_012, u64::MAX, (1u64 << 53) + 1] {
        let expected = if size < 1024 * 1024 {
            format!("{:.1} KB", size as f64 / 1024.0)
        } else if size < 1024 * 1024 * 1024 {
            format!("{:.1} MB", size as f64 / (1024.0 * 1024.0))
        } else {
            format!("{:.1} GB", size as f64 / (1024.0 * 1024.0 * 1024.0))
        };
        assert_eq!(entry_of_size(size).format_size(), expected, "size {}", size);
    }
}

#[test]
fn backup_names_round_trip() {
    let name = backup_file_name("my_file", "20241114_143052.123456");
    assert_eq!(name, "my_file_20241114_143052.123456");
    let (n, s) = split_backup_filename(&name).unwrap();
    assert_eq!(n, "my_file");
    assert_eq!(s, "20241114_143052.123456");
    assert!(split_backup_filename("one_part").is_none());
}

#[test]
fn current_stamp_names_a_parsable_backup() {
    let name = backup_file_name(".vimrc", &current_stamp());
    let parsed = BackupEntry::parse_backup_filename(&name);
    assert_eq!(parsed.map(|p| p.0), Some(".vimrc".to_string()));
}

#[test]
fn parsed_times_order_like_the_stamps() {
    let (_, a) = BackupEntry::parse_backup_filename("x_20240101_000000.000001").unwrap();
    let (_, b) = BackupEntry::parse_backup_filename("x_20240101_000000.000002").unwrap();
    assert_eq!(b - a, 1);
}

#[test]
fn entry_from_backup_path() {
    let e = BackupEntry::from_path("/backups/.bashrc_20241114_143052.123456", "/home/u", 42).unwrap();
    assert_eq!(e.original_name, ".bashrc");
    assert_eq!(e.target_path, "/home/u/.bashrc");
    assert_eq!(e.backup_path, "/backups/.bashrc_20241114_143052.123456");
    assert_eq!(e.file_size, 42);
    assert!(BackupEntry::from_path("/backups/notabackup", "/home/u", 1).is_none());
    assert!(BackupEntry::from_path("/", "/home/u", 1).is_none());
}

#[test]
fn preview_takes_the_first_lines() {
    assert_eq!(BackupEntry::preview_content("a\nb\nc\n", 2), vec!["a", "b"]);
    assert_eq!(BackupEntry::preview_content("a\r\nb", 5), vec!["a", "b"]);
    assert!(BackupEntry::preview_content("", 5).is_empty());
}

#[test]
fn current_stamp_has_the_stamp_form() {
    let s: Vec<char> = current_stamp().chars().collect();
    let k = s.len() - 14;
    assert!(s.len() >= 22);
    assert_eq!(s[k], '_');
    assert_eq!(s[k + 7], '.');
    assert_eq!(s.iter().filter(|c| **c == '_').count(), 1);
    assert!(s.iter().enumerate().all(|(i, c)| i == k || i == k + 7 || c.is_ascii_digit()));
}

#[test]
fn entry_from_what_the_name_gave() {
    let e = BackupEntry::entry_from_parsed("/b/.zshrc_x_y", "/home/u", 5, Some((".zshrc".to_string(), 1234))).unwrap();
    assert_eq!(e.original_name, ".zshrc");
    assert_eq!(e.timestamp, 1234);
    assert_eq!(e.backup_path, "/b/.zshrc_x_y");
    assert_eq!(e.target_path, "/home/u/.zshrc");
    assert_eq!(e.file_size, 5);
    assert!(BackupEntry::entry_from_parsed("/b/x", "/home/u", 5, None).is_none());
}
