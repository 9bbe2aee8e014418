use weiback_rs::picture::{pic_url_to_file, pic_url_to_id, strip_url_queries, Picture};
use weiback_rs::picture_meta::{
    PictureMeta, SqlPicture, SqlPictureBlob, PIC_TYPE_AVATAR, PIC_TYPE_EMOJI, PIC_TYPE_INPOST,
};
use weiback_rs::picture_meta::Picture as StoredPicture;

#[test]
fn pic_url_to_file_test() {
    let a = "https://baidu.com/hhhh.jpg?a=1&b=2";
    let res = pic_url_to_file(a);
    println!("{res}");
    assert_eq!(res, "hhhh.jpg");
}

#[test]
fn pic_url_to_id_test() {
    let a = "https://baidu.com/hhhh.jpg?a=1&b=2";
    let res = pic_url_to_id(a);
    println!("{res}");
    assert_eq!(res, "hhhh");
}

#[test]
fn strip_queries_keeps_text_before_question_mark() {
    assert_eq!(strip_url_queries("https://a.cn/x.jpg?a=1?b=2"), "https://a.cn/x.jpg");
    assert_eq!(strip_url_queries("https://a.cn/x.jpg"), "https://a.cn/x.jpg");
    assert_eq!(strip_url_queries(""), "");
    // removing the queries twice is removing them once
    let once = strip_url_queries("https://a.cn/y.png?k=v");
    assert_eq!(strip_url_queries(once), once);
}

#[test]
fn file_name_edge_cases() {
    assert_eq!(pic_url_to_file("no_slash.gif?x"), "no_slash.gif");
    assert_eq!(pic_url_to_file("https://a.cn/dir/"), "");
    assert_eq!(pic_url_to_id("https://a.cn/a.b.c.jpg"), "a.b.c");
}

#[test]
fn picture_constructors_strip_queries() {
    let p = Picture::in_post("https://wx1.sinaimg.cn/large/abc.jpg?tag=1", 42);
    assert_eq!(p, Picture::InPost("https://wx1.sinaimg.cn/large/abc.jpg".to_string(), 42));
    assert_eq!(p.get_url(), "https://wx1.sinaimg.cn/large/abc.jpg");
    assert_eq!(p.get_id(), "abc");
    assert_eq!(p.get_file_name(), "abc.jpg");
    assert!(!p.is_tmp());
    let a = Picture::avatar("https://tvax1.sinaimg.cn/crop/u.jpg?KID=1", 7);
    assert_eq!(a, Picture::Avatar("https://tvax1.sinaimg.cn/crop/u.jpg".to_string(), 7));
    let e = Picture::emoji("https://face.t.sinajs.cn/d/doge.png");
    assert_eq!(e, Picture::Emoji("https://face.t.sinajs.cn/d/doge.png".to_string()));
    let t = Picture::tmp("https://a.cn/q.png?x=y");
    assert!(t.is_tmp());
    assert_eq!(t.get_url(), "https://a.cn/q.png");
}

#[test]
fn picture_meta_rows() {
    let m = PictureMeta::in_post("https://a.cn/large/p1.jpg".to_string(), 5);
    assert_eq!(m.url(), "https://a.cn/large/p1.jpg");
    let row = SqlPicture::from_meta(&m);
    assert_eq!(
        row,
        SqlPicture { id: "p1".to_string(), uid: None, post_id: Some(5), type_: PIC_TYPE_INPOST }
    );
    let m = PictureMeta::avatar("https://a.cn/u/av.png".to_string(), 9);
    let row = SqlPicture::from_meta(&m);
    assert_eq!(
        row,
        SqlPicture { id: "av".to_string(), uid: Some(9), post_id: None, type_: PIC_TYPE_AVATAR }
    );
    let m = PictureMeta::other("https://a.cn/e/smile.gif".to_string());
    let row = SqlPicture::from_meta(&m);
    assert_eq!(
        row,
        SqlPicture { id: "smile".to_string(), uid: None, post_id: None, type_: PIC_TYPE_EMOJI }
    );
    let blob = SqlPictureBlob::from_picture(StoredPicture {
        meta: PictureMeta::other("https://a.cn/e/smile.gif".to_string()),
        blob: vec![1, 2, 3],
    });
    assert_eq!(blob.url, "https://a.cn/e/smile.gif");
    assert_eq!(blob.id, "smile");
    assert_eq!(blob.blob, vec![1, 2, 3]);
}
