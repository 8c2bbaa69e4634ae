use hypodj::client::viz::{decode_frame, is_viz_greeting};
use hypodj::number::Real;

fn exact(x: f64) -> Real {
    if x.is_nan() {
        Real::Nan
    } else if x == f64::INFINITY {
        Real::PosInf
    } else if x == f64::NEG_INFINITY {
        Real::NegInf
    } else {
        Real::Finite((x * 1e9).round() as i128)
    }
}

#[test]
fn decode_and_post_gain() {
    let s = decode_frame("-20.50 -12.00 -6.00 1").unwrap();
    assert_eq!(s.rms_db, exact(-20.50));
    assert!(s.playing);
    assert_eq!(s.post_gain_db(), exact(-26.50));
}

#[test]
fn decode_rejects_malformed() {
    assert!(decode_frame("").is_none());
    assert!(decode_frame("a b c d").is_none());
    assert!(decode_frame("-1 -2 -3").is_none());
    assert!(decode_frame("-1 -2 -3 9").is_none());
    assert!(decode_frame("-1 -2 -3 0 x").is_none());
    assert!(!decode_frame("-54 -54 0 0").unwrap().playing);
}

#[test]
fn the_level_stream_greets_by_its_name() {
    assert!(is_viz_greeting("OK HYPODJ-VIZ 1"));
    assert!(!is_viz_greeting("OK MPD 0.23.0"));
}
