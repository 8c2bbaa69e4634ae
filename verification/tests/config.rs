use hypodj::config::{
    default_client_name, Config, FadeConfig, MpdConfig, MprisConfig, RestartConfig, ServerConfig,
    CEILING_MIN_MARGIN_DB, MIN_STEP_SIZE_DB,
};
use hypodj::fade::{Curve, FadeSpec, FadeTarget, StartleBounds};
use hypodj::number::{Real, Span};

fn exact(x: f64) -> Real {
    if x.is_nan() {
        Real::Nan
    } else if x == f64::INFINITY {
        Real::PosInf
    } else if x == f64::NEG_INFINITY {
        Real::NegInf
    } else {
        Real::Finite((x * 1e9).round() as i128)
    }
}

fn value(r: Real) -> i128 {
    match r {
        Real::Finite(n) => n,
        other => panic!("not finite: {other:?}"),
    }
}

fn text_at(t: &toml::Table, section: &str, key: &str) -> Option<String> {
    t.get(section)?.get(key)?.as_str().map(|s| s.to_string())
}

fn whole_at(t: &toml::Table, key: &str, out: &mut u64) {
    if let Some(n) = t.get("fade").and_then(|f| f.get(key)).and_then(|v| v.as_integer()) {
        *out = n as u64;
    }
}

fn real_at(t: &toml::Table, key: &str, out: &mut Real) {
    if let Some(x) = t.get("fade").and_then(|f| f.get(key)).and_then(|v| v.as_float()) {
        *out = exact(x);
    }
}

fn config_from(raw: &str) -> Config {
    let t: toml::Table = raw.parse().unwrap();
    let mut fade = FadeConfig::default();
    whole_at(&t, "min_slew_ms", &mut fade.min_slew_ms);
    whole_at(&t, "tick_ms", &mut fade.tick_ms);
    whole_at(&t, "sleep_fade_secs", &mut fade.sleep_fade_secs);
    whole_at(&t, "winddown_fade_secs", &mut fade.winddown_fade_secs);
    whole_at(&t, "wake_ramp_secs", &mut fade.wake_ramp_secs);
    whole_at(&t, "max_dur_secs", &mut fade.max_dur_secs);
    whole_at(&t, "shutdown_fade_secs", &mut fade.shutdown_fade_secs);
    real_at(&t, "step_size_db", &mut fade.step_size_db);
    real_at(&t, "floor_level_db", &mut fade.floor_level_db);
    real_at(&t, "synth_floor_db", &mut fade.synth_floor_db);
    real_at(&t, "wake_ceiling_db", &mut fade.wake_ceiling_db);
    real_at(&t, "pause_fade_secs", &mut fade.pause_fade_secs);
    fade.normalize();
    let mut mpd = MpdConfig::default();
    if let Some(bind) = text_at(&t, "mpd", "bind") {
        mpd.bind = bind;
    }
    Config {
        server: ServerConfig {
            url: text_at(&t, "server", "url").unwrap(),
            username: text_at(&t, "server", "username").unwrap(),
            password: text_at(&t, "server", "password").unwrap(),
            client_name: text_at(&t, "server", "client_name").unwrap_or_else(default_client_name),
        },
        mpd,
        mpris: MprisConfig::default(),
        fade,
        restart: RestartConfig::default(),
    }
}

#[test]
fn parses_and_defaults_bind_to_6601_not_6600() {
    let cfg = config_from(
        r#"
        [server]
        url = "https://music.example.com"
        username = "alice"
        password = "s3cr3t"
    "#,
    );
    assert_eq!(cfg.server.url, "https://music.example.com");
    assert_eq!(cfg.server.username, "alice");
    assert_eq!(cfg.server.client_name, "hypodj");
    assert_eq!(cfg.mpd.bind, "127.0.0.1:6601");
}

#[test]
fn fade_section_defaults_and_overrides() {
    let cfg = config_from(
        r#"
        [server]
        url = "https://m"
        username = "a"
        password = "b"
    "#,
    );
    assert_eq!(cfg.fade.min_slew_ms, 250);
    assert_eq!(cfg.fade.step_size_db, exact(0.75));
    assert_eq!(cfg.fade.synth_floor_db, exact(-60.0));
    assert_eq!(cfg.fade.max_dur_secs, 1800);
    assert_eq!(cfg.fade.pause_fade_secs, exact(0.5), "pause fade defaults to a short 0.5s");

    let cfg = config_from(
        r#"
        [server]
        url = "https://m"
        username = "a"
        password = "b"
        [fade]
        winddown_fade_secs = 120
        step_size_db = 0.5
    "#,
    );
    assert_eq!(cfg.fade.winddown_fade_secs, 120);
    assert_eq!(cfg.fade.step_size_db, exact(0.5));
    assert_eq!(cfg.fade.min_slew_ms, 250);
}

#[test]
fn normalize_clamps_bad_min_slew_and_pins_synth_floor() {
    let cfg = config_from(
        r#"
        [server]
        url = "https://m"
        username = "a"
        password = "b"
        [fade]
        min_slew_ms = 50
        synth_floor_db = -45.0
        tick_ms = 60
    "#,
    );
    assert_eq!(cfg.fade.min_slew_ms, 200, "min_slew clamped to startle floor");
    assert!(cfg.fade.tick_ms >= cfg.fade.min_slew_ms, "tick >= min_slew");
    assert_eq!(cfg.fade.synth_floor_db, exact(-60.0), "synth floor pinned to the seam");
}

#[test]
fn normalize_clamps_durations_and_floor() {
    let cfg = config_from(
        r#"
        [server]
        url = "https://m"
        username = "a"
        password = "b"
        [fade]
        max_dur_secs = 100
        winddown_fade_secs = 999999
        sleep_fade_secs = 999999
        floor_level_db = 5.0
    "#,
    );
    assert_eq!(cfg.fade.winddown_fade_secs, 100, "clamped to max_dur");
    assert_eq!(cfg.fade.sleep_fade_secs, 100, "sleep_fade read + clamped to max_dur");
    assert!(value(cfg.fade.floor_level_db) > value(exact(-60.0)) && value(cfg.fade.floor_level_db) < 0);
}

#[test]
fn normalize_never_panics_on_degenerate_values() {
    let cfg = config_from(
        r#"
        [server]
        url = "https://m"
        username = "a"
        password = "b"
        [fade]
        max_dur_secs = 0
    "#,
    );
    assert!(cfg.fade.max_dur_secs >= 1, "max_dur raised to per-second min");
    assert!(cfg.fade.winddown_fade_secs <= cfg.fade.max_dur_secs);

    let cfg = config_from(
        r#"
        [server]
        url = "https://m"
        username = "a"
        password = "b"
        [fade]
        wake_ceiling_db = -60.0
    "#,
    );
    assert!(
        value(cfg.fade.wake_ceiling_db) >= value(cfg.fade.synth_floor_db) + CEILING_MIN_MARGIN_DB,
        "ceiling raised to a sane margin above the synth floor"
    );
    assert!(value(cfg.fade.floor_level_db) > value(cfg.fade.synth_floor_db));
    assert!(value(cfg.fade.floor_level_db) < value(cfg.fade.wake_ceiling_db));

    let cfg = config_from(
        r#"
        [server]
        url = "https://m"
        username = "a"
        password = "b"
        [fade]
        step_size_db = 0.0
    "#,
    );
    assert!(value(cfg.fade.step_size_db) >= MIN_STEP_SIZE_DB);
    let bounds = StartleBounds {
        min_slew: Span::from_millis(cfg.fade.min_slew_ms),
        step_size_db: cfg.fade.step_size_db,
        synth_floor_db: value(cfg.fade.synth_floor_db),
        sub_jnd: true,
    };
    let _ = FadeSpec::new(
        exact(0.0),
        FadeTarget::Db(exact(-45.0)),
        Span::from_secs(60),
        Span::from_millis(cfg.fade.tick_ms),
        Curve::DbLinear,
        bounds,
    );
}

#[test]
fn normalize_extreme_battery_stays_sane() {
    let cases = [
        "min_slew_ms = 0\ntick_ms = 0\nmax_dur_secs = 0\nstep_size_db = 0.0",
        "step_size_db = -5.0\nwake_ceiling_db = -100.0\nfloor_level_db = 999.0",
        "wake_ceiling_db = nan\nstep_size_db = inf\nfloor_level_db = -inf",
        "max_dur_secs = 1\nmin_slew_ms = 999999\ntick_ms = 1",
        "synth_floor_db = 40.0\nwake_ceiling_db = 41.0\nfloor_level_db = 0.0",
    ];
    for extra in cases {
        let raw = format!(
            "[server]\nurl = \"https://m\"\nusername = \"a\"\npassword = \"b\"\n[fade]\n{extra}\n"
        );
        let cfg = config_from(&raw);
        let f = &cfg.fade;
        assert!(f.min_slew_ms >= 200);
        assert!(f.tick_ms >= f.min_slew_ms);
        assert!(value(f.step_size_db) >= MIN_STEP_SIZE_DB);
        assert!(f.step_size_db.is_finite());
        assert_eq!(f.synth_floor_db, exact(-60.0));
        assert!(value(f.wake_ceiling_db) >= value(f.synth_floor_db) + CEILING_MIN_MARGIN_DB);
        assert!(f.wake_ceiling_db.is_finite());
        assert!(value(f.floor_level_db) > value(f.synth_floor_db));
        assert!(value(f.floor_level_db) < value(f.wake_ceiling_db));
        let min_s = ((f.min_slew_ms as f64 / 1000.0).ceil() as u64).max(1);
        assert!(f.max_dur_secs >= min_s);
        for d in [f.sleep_fade_secs, f.winddown_fade_secs, f.wake_ramp_secs] {
            assert!(d >= min_s && d <= f.max_dur_secs, "duration {d} out of range in {extra:?}");
        }
    }
}

#[test]
fn explicit_bind_overrides_default() {
    let cfg = config_from(
        r#"
        [server]
        url = "https://m.example.com"
        username = "a"
        password = "b"
        [mpd]
        bind = "127.0.0.1:7000"
    "#,
    );
    assert_eq!(cfg.mpd.bind, "127.0.0.1:7000");
}

#[test]
fn a_normal_configuration_stays_as_it_is() {
    let mut once = FadeConfig::default();
    once.step_size_db = Real::PosInf;
    once.max_dur_secs = 0;
    once.normalize();
    let mut twice = once;
    twice.normalize();
    assert_eq!(once, twice);
    let mut d = FadeConfig::default();
    d.normalize();
    assert_eq!(d, FadeConfig::default());
}

#[test]
fn what_is_not_set_has_its_default() {
    assert_eq!(RestartConfig::default().checkpoint_secs, 12);
    assert_eq!(RestartConfig::default().state_dir, None);
    assert!(MprisConfig::default().enable);
}
