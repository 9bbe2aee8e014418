use weiback_rs::exporter::next_batch_start;
use weiback_rs::login::parse_i64;
use weiback_rs::planning::{backup_pages, u32_div_ceil};
use weiback_rs::sql_text::to_sql_str;
use weiback_rs::strings::i64_text;
use weiback_rs::upgrade::Checkpoints;

#[test]
fn decimal_text_reads_back() {
    for i in [0i64, 7, -7, 1234567890, i64::MIN, i64::MAX] {
        assert_eq!(parse_i64(&i64_text(i)), Some(i));
    }
}

#[test]
fn quoted_literal_reads_back() {
    for s in ["", "a'b", "''", "plain", "中'文"] {
        let q = to_sql_str(s);
        let inner = &q[1..q.len() - 1];
        assert_eq!(inner.replace("''", "'"), s);
    }
}

#[test]
fn pages_cover_every_post() {
    let (first, last, total) = backup_pages(5, 95, 20);
    for post in 5..=95 {
        let page = u32_div_ceil(post, 20);
        assert!(first <= page && page <= last);
    }
    assert_eq!(total, (last - first + 1) as u64);
}

#[test]
fn export_pages_advance_to_the_end() {
    let mut start = 0u32;
    let mut pages = 0;
    while let Some(next) = next_batch_start(start, 2500, 1000) {
        assert!(next > start && next <= 2500);
        start = next;
        pages += 1;
    }
    assert_eq!((start, pages), (2500, 3));
}

#[test]
fn resuming_skips_done_steps() {
    for flag in 0..5 {
        let mut c = Checkpoints::resume(flag);
        for n in 0..8 {
            assert_eq!(c.is_unfinished(), n >= flag);
        }
        assert_eq!(c, Checkpoints { flag: flag.max(8), check_point: 8 });
    }
}
