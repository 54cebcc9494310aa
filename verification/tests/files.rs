use std::path::PathBuf;

use catch::file_store::{
    download_headers, file_name, get_file_path, get_storage_dir, sort_file_entries, FileEntry, FileStoreView,
    FormField, UploadForm,
};

fn joined_with_path_buf(filename: &str, custom: Option<&str>) -> String {
    let mut dir = PathBuf::from("_catch/files");
    if let Some(c) = custom {
        for part in c.trim_start_matches('/').split('/') {
            if !part.is_empty() {
                dir = dir.join(part);
            }
        }
    }
    dir.join(filename).to_string_lossy().to_string()
}

#[test]
fn storage_dir() {
    assert_eq!(get_storage_dir(), "_catch/files");
}

#[test]
fn file_paths_match_path_join() {
    let names = ["a.txt", "dir/b.txt", "/abs/c", "", "x/"];
    let customs = [None, Some(""), Some("/docs/2024/"), Some("//a///b"), Some("plain")];
    for n in names {
        for c in customs {
            assert_eq!(get_file_path(n, c), joined_with_path_buf(n, c), "{n:?} {c:?}");
        }
    }
    assert_eq!(get_file_path("r.json", Some("/docs/2024")), "_catch/files/docs/2024/r.json");
}

#[test]
fn file_names_match_path_file_name() {
    for p in ["_catch/files/a.txt", "_catch/files/d/", "_catch/files/..", "_catch/files/.", "/", ".", "a/./", "a//b//", "x/y/.."] {
        let expected = std::path::Path::new(p).file_name().and_then(|n| n.to_str()).map(|s| s.to_string());
        assert_eq!(file_name(p), expected, "{p:?}");
    }
}

#[test]
fn download_headers_name_the_file() {
    let (ct, disp) = download_headers("_catch/files/report.json");
    assert_eq!(ct, "application/json");
    assert_eq!(disp, "attachment; filename=\"report.json\"");
    let (ct, disp) = download_headers("_catch/files/..");
    assert_eq!(ct, "application/octet-stream");
    assert_eq!(disp, "attachment; filename=\"download\"");
}

#[test]
fn file_sizes() {
    assert_eq!(FileStoreView::format_file_size(0), "0 B");
    assert_eq!(FileStoreView::format_file_size(1023), "1023 B");
    assert_eq!(FileStoreView::format_file_size(1024), "1.00 KB");
    assert_eq!(FileStoreView::format_file_size(1536), "1.50 KB");
    assert_eq!(FileStoreView::format_file_size(1048576), "1.00 MB");
    assert_eq!(FileStoreView::format_file_size(u64::MAX), "17179869184.00 GB");
}

#[test]
fn file_sizes_match_float_formatting() {
    let mut samples: Vec<u64> = vec![1024, 1152, 1408, 1029, 1034, 1039, 5 * 1024 + 5, 1048576 + 5243, 1073741824, 1073741824 * 3 + 5368709, (1u64 << 53) + 1, (1u64 << 53) + 3, (1u64 << 60) + 12345, u64::MAX - 1];
    let mut x: u64 = 0x9E3779B97F4A7C15;
    for _ in 0..20000 {
        x ^= x << 13;
        x ^= x >> 7;
        x ^= x << 17;
        samples.push(x >> (x % 64));
    }
    for size in samples {
        let expected = if size >= 1073741824 {
            format!("{:.2} GB", size as f64 / 1073741824.0)
        } else if size >= 1048576 {
            format!("{:.2} MB", size as f64 / 1048576.0)
        } else if size >= 1024 {
            format!("{:.2} KB", size as f64 / 1024.0)
        } else {
            format!("{size} B")
        };
        assert_eq!(FileStoreView::format_file_size(size), expected, "{size}");
    }
}

#[test]
fn entries_sorted_by_path() {
    let files = vec![
        FileEntry { path: "b/x".to_string(), size: 1 },
        FileEntry { path: "a".to_string(), size: 2 },
        FileEntry { path: "B".to_string(), size: 3 },
        FileEntry { path: "b".to_string(), size: 4 },
        FileEntry { path: "a".to_string(), size: 5 },
    ];
    let sorted = sort_file_entries(files);
    let got: Vec<(String, u64)> = sorted.into_iter().map(|f| (f.path, f.size)).collect();
    assert_eq!(
        got,
        vec![
            ("B".to_string(), 3),
            ("a".to_string(), 2),
            ("a".to_string(), 5),
            ("b".to_string(), 4),
            ("b/x".to_string(), 1)
        ]
    );
}

#[test]
fn upload_form_flow() {
    let mut form = UploadForm::new();
    assert_eq!(form.target(), None);
    assert_eq!(form.begin_field("custom_path", None), FormField::CustomPath);
    form.add_custom_path_chunk("  docs/2024  ");
    form.add_custom_path_chunk("   ");
    assert_eq!(form.begin_field("other", None), FormField::Other);
    assert_eq!(form.begin_field("file", Some("a.txt")), FormField::File);
    assert_eq!(form.target(), None);
    form.add_file_chunk(b"hello ");
    form.add_file_chunk(b"world");
    assert_eq!(form.data(), &b"hello world".to_vec());
    assert_eq!(form.target(), Some("_catch/files/docs/2024/a.txt".to_string()));

    let mut unnamed = UploadForm::new();
    unnamed.begin_field("file", None);
    unnamed.add_file_chunk(b"x");
    assert_eq!(unnamed.target(), Some("_catch/files/upload".to_string()));
}
