use weiback_rs::search_args::SearchArgs;

#[test]
fn no_flag_leaves_base() {
    let a = SearchArgs::new();
    assert_eq!(a.attach_args("https://weibo.com/ajax?uid=1".to_string()), "https://weibo.com/ajax?uid=1");
}

#[test]
fn flags_in_fixed_order() {
    let a = SearchArgs::new().with_music().with_ori().with_pic();
    assert_eq!(a.attach_args("u".to_string()), "u&hasori=1&haspic=1&hasmusic=1");
    let all = SearchArgs::new()
        .with_ori()
        .with_ret()
        .with_text()
        .with_pic()
        .with_video()
        .with_music();
    assert_eq!(
        all.attach_args(String::new()),
        "&hasori=1&hasret=1&hastext=1&haspic=1&hasvideo=1&hasmusic=1"
    );
}
