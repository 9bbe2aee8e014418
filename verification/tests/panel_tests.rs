use weiback_rs::panel::{
    parse_u32, range_from_text, PanelState, StartRequest, StatusEvent, TabType, TaskStatus,
};

#[test]
fn reports_update_the_window() {
    let mut p = PanelState::new();
    assert_eq!((p.web_start, p.db_start, p.image_definition, p.period), (1, 1, 2, 50));
    p.apply_status(StatusEvent::Init(42, 7));
    assert_eq!((p.web_total, p.db_total, p.web_end, p.db_end), (42, 7, 42, 7));
    assert_eq!(p.message, "账号共 42 条收藏\n本地保存有 7 条收藏");
    p.apply_status(StatusEvent::Init(50, 9));
    assert_eq!((p.web_end, p.db_end), (42, 7));
    p.apply_status(StatusEvent::InProgress("第1页".to_string()));
    assert_eq!(p.message, "第1页");
    p.task_ongoing = true;
    p.apply_status(StatusEvent::Finished(40, 11));
    assert!(!p.task_ongoing);
    assert_eq!(p.message, "任务完成!\n账号剩 40 条收藏\n本地保存有 11 条收藏");
    p.apply_status(StatusEvent::Error("网络错误".to_string()));
    assert_eq!(p.message, "网络错误");
    assert_eq!(p.download_range_limit(), 40);
}

#[test]
fn start_button_requests() {
    let mut p = PanelState::new();
    p.web_end = 100;
    assert_eq!(
        p.start(),
        Some(StartRequest::DownloadPosts { start: 1, end: 100, with_pic: true, image_definition: 2 })
    );
    assert!(p.task_ongoing);
    p.tab_type = TabType::ExportFromLocal;
    p.db_start = 3;
    p.db_end = 9;
    assert_eq!(
        p.start(),
        Some(StartRequest::ExportFromLocal { start: 3, end: 3, reverse: true, image_definition: 2 })
    );
    p.tab_type = TabType::About;
    assert_eq!(p.start(), None);
}

#[test]
fn typed_ranges() {
    assert_eq!(parse_u32("42"), Some(42));
    assert_eq!(parse_u32("+7"), Some(7));
    assert_eq!(parse_u32("-1"), None);
    assert_eq!(parse_u32("4294967295"), Some(u32::MAX));
    assert_eq!(parse_u32("4294967296"), None);
    assert_eq!(parse_u32(""), None);
    assert_eq!(parse_u32(" 1"), None);
    assert_eq!(range_from_text("3", "10"), (3, 10));
    assert_eq!(range_from_text("", "x"), (1, u32::MAX));
}

#[test]
fn window_statuses_update_the_message() {
    let mut p = PanelState::new();
    p.task_ongoing = true;
    p.apply_task_status(TaskStatus::InProgress("已处理1条".to_string()));
    assert_eq!(p.message, "已处理1条");
    assert!(p.task_ongoing);
    p.apply_task_status(TaskStatus::Info("info".to_string()));
    assert_eq!(p.message, "info");
    p.apply_task_status(TaskStatus::Error("bad".to_string()));
    assert_eq!(p.message, "bad");
    p.apply_task_status(TaskStatus::Finished);
    assert!(!p.task_ongoing);
    assert_eq!(p.message, "bad");
}
