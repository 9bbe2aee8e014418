use weiback_rs::post_urls::{
    get_favorite_download_url, get_mobile_download_url, get_posts_download_url,
    get_unfavorite_url, is_client_only, starts_with,
};
use weiback_rs::search_args::SearchArgs;

#[test]
fn api_addresses() {
    assert_eq!(get_unfavorite_url(), "https://weibo.com/ajax/statuses/destoryFavorites");
    assert_eq!(
        get_posts_download_url(12, 3, &SearchArgs::new().with_pic()),
        "https://weibo.com/ajax/statuses/searchProfile?uid=12&page=3&haspic=1"
    );
    assert_eq!(
        get_favorite_download_url(12, 1),
        "https://weibo.com/ajax/favorites/all_fav?uid=12&page=1"
    );
    assert_eq!(get_mobile_download_url("N1abc"), "https://m.weibo.cn/statuses/show?id=N1abc");
}

#[test]
fn client_only_posts() {
    assert!(starts_with("abc", "ab"));
    assert!(starts_with("abc", ""));
    assert!(!starts_with("ab", "abc"));
    assert!(!starts_with("abc", "b"));
    assert!(is_client_only(false, "该内容请至手机客户端查看>>"));
    assert!(!is_client_only(true, "该内容请至手机客户端查看"));
    assert!(!is_client_only(false, "普通微博"));
}
