use oxide_explorer::format::{date_text, disk_info_text, format_date, format_permissions, item_count_text, selection_text, year_string, LocalTime};

#[test]
fn permissions() {
    assert_eq!(format_permissions(0o40755), "drwxr-xr-x");
    assert_eq!(format_permissions(0o120777), "lrwxrwxrwx");
    assert_eq!(format_permissions(0o100600), "-rw-------");
}

#[test]
fn status_line_texts() {
    assert_eq!(item_count_text(1, 1), "1 item");
    assert_eq!(item_count_text(5, 5), "5 items");
    assert_eq!(item_count_text(0, 0), "0 items");
    assert_eq!(item_count_text(2, 5), "2 of 5 items");
    assert_eq!(selection_text(0), "");
    assert_eq!(selection_text(3), "3 selected");
    assert_eq!(disk_info_text(1024, 2048), "1.0 KB free of 2.0 KB");
    assert_eq!(disk_info_text(10, 0), "");
}

#[test]
fn dates() {
    assert_eq!(format_date(i64::MAX), "\u{2014}");
    let d = format_date(0);
    assert_eq!(d.len(), 16);
    assert_eq!(&d[4..5], "-");
    assert_eq!(date_text(None), "\u{2014}");
    let t = LocalTime { year: 2024, month: 3, day: 7, hour: 9, minute: 5 };
    assert_eq!(date_text(Some(t)), "2024-03-07 09:05");
}

#[test]
fn date_range_bounds() {
    assert_ne!(format_date(8210266876799), "\u{2014}");
    assert_eq!(format_date(8210266876800), "\u{2014}");
    assert_ne!(format_date(-8334601228800), "\u{2014}");
    assert_eq!(format_date(-8334601228801), "\u{2014}");
}

#[test]
fn years_as_chrono_writes_them() {
    assert_eq!(year_string(7), "0007");
    assert_eq!(year_string(1999), "1999");
    assert_eq!(year_string(-1), "-0001");
    assert_eq!(year_string(10000), "+10000");
    assert_eq!(year_string(-262143), "-262143");
}

#[test]
fn years_match_chrono_format() {
    for y in [-262143, -10000, -9999, -1, 0, 1, 999, 1000, 9999, 10000, 262142] {
        let d = chrono::NaiveDate::from_ymd_opt(y, 1, 1).unwrap();
        assert_eq!(year_string(y), d.format("%Y").to_string());
    }
}

#[test]
fn dates_match_chrono_local_format() {
    for ts in [0i64, -1, 951782400, 1431648000 + 3723, 4102444800, -62135596800, 8210266876799 - 86400 * 2] {
        let expected = chrono::DateTime::from_timestamp(ts, 0)
            .unwrap()
            .with_timezone(&chrono::Local)
            .format("%Y-%m-%d %H:%M")
            .to_string();
        assert_eq!(format_date(ts), expected);
    }
    assert!(format_date(1431648000 + 12 * 3600).starts_with("2015-05-1"));
}
