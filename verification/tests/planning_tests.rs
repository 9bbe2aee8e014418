use std::ops::RangeInclusive;
use weiback_rs::exporter::{
    batch_range, html_file_name, next_batch_start, resources_dir_name, subtask_name, ExportOptions,
};
use weiback_rs::planning::{backup_pages, fav_page_range, u32_div_ceil};
use weiback_rs::ports::PictureDefinition;

#[test]
fn backup_page_spans() {
    assert_eq!(u32_div_ceil(0, 20), 0);
    assert_eq!(u32_div_ceil(21, 20), 2);
    assert_eq!(u32_div_ceil(40, 20), 2);
    assert_eq!(backup_pages(1, 100, 20), (1, 5, 5));
    assert_eq!(backup_pages(21, 40, 20), (2, 2, 1));
    assert_eq!(backup_pages(0, 0, 20), (0, 0, 1));
    assert_eq!(fav_page_range(1, 2000), (1, 100));
    assert_eq!(fav_page_range(21, 100), (2, 5));
}

#[test]
fn export_pages() {
    assert_eq!(batch_range(0, 2500, 1000), (0, 1000));
    assert_eq!(batch_range(2000, 2500, 1000), (2000, 2500));
    assert_eq!(next_batch_start(0, 2500, 1000), Some(1000));
    assert_eq!(next_batch_start(2000, 2500, 1000), Some(2500));
    assert_eq!(next_batch_start(2500, 2500, 1000), None);
    assert_eq!(subtask_name("weiback_export.html", 3), "weiback_export.html_3");
    assert_eq!(html_file_name("task_1"), "task_1.html");
    assert_eq!(resources_dir_name("task_1"), "task_1_files");
}

#[test]
fn export_options() {
    let o = ExportOptions::new();
    assert_eq!(o.pic_quality, PictureDefinition::Largest);
    assert_eq!(o.export_path, ".");
    assert_eq!(o.export_task_name, "weiback_export.html");
    assert_eq!(o.posts_per_html, 1000);
    assert!(!o.reverse);
    assert_eq!(o.range, 0..=u32::MAX);
    let o = ExportOptions::new()
        .pic_quality(PictureDefinition::Thumbnail)
        .export_path("out".to_string())
        .export_task_name("t".to_string())
        .posts_per_html(10)
        .range(RangeInclusive::new(5, 9))
        .reverse(true);
    assert_eq!(o.pic_quality, PictureDefinition::Thumbnail);
    assert_eq!(o.export_path, "out");
    assert_eq!(o.export_task_name, "t");
    assert_eq!(o.posts_per_html, 10);
    assert_eq!(o.range, 5..=9);
    assert!(o.reverse);
}
