use hypodj::cache::TtlLru;
use hypodj::event::Moment;
use hypodj::number::Span;

fn at(millis: u64) -> Moment {
    Moment { nanos: 1_000_000_000 + Span::from_millis(millis).nanos }
}

#[test]
fn hit_then_expire() {
    let mut c: TtlLru<String, u32> = TtlLru::new(4, Span::from_millis(30));
    c.put("a".into(), 1, at(0));
    assert_eq!(c.get(&"a".into(), at(0)), Some(1));
    assert_eq!(c.get(&"a".into(), at(40)), None, "expired entry must miss");
}

#[test]
fn evicts_lru_over_capacity() {
    let mut c: TtlLru<String, u32> = TtlLru::new(2, Span::from_secs(60));
    c.put("a".into(), 1, at(0));
    c.put("b".into(), 2, at(0));
    assert_eq!(c.get(&"a".into(), at(0)), Some(1));
    c.put("c".into(), 3, at(0)); // evicts b
    assert_eq!(c.get(&"b".into(), at(0)), None);
    assert_eq!(c.get(&"a".into(), at(0)), Some(1));
    assert_eq!(c.get(&"c".into(), at(0)), Some(3));
}

#[test]
fn a_key_need_not_be_a_text() {
    let mut c: TtlLru<u64, &str> = TtlLru::new(1, Span::from_secs(60));
    c.put(7, "seven", at(0));
    assert_eq!(c.get(&7, at(0)), Some("seven"));
    c.put(8, "eight", at(0));
    assert_eq!(c.get(&7, at(0)), None);
    c.invalidate(&8);
    assert_eq!(c.get(&8, at(0)), None);
}

#[test]
fn invalidate_and_prefix() {
    let mut c: TtlLru<String, u32> = TtlLru::new(8, Span::from_secs(60));
    c.put("artists".into(), 1, at(0));
    c.put("album/1".into(), 2, at(0));
    c.put("album/2".into(), 3, at(0));
    c.put("cover/x".into(), 4, at(0));
    c.invalidate(&"artists".into());
    assert_eq!(c.get(&"artists".into(), at(0)), None);
    c.invalidate_prefix("album/");
    assert_eq!(c.get(&"album/1".into(), at(0)), None);
    assert_eq!(c.get(&"album/2".into(), at(0)), None);
    assert_eq!(c.get(&"cover/x".into(), at(0)), Some(4), "prefix bust is scoped");
}
