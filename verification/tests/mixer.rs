use relax_player::app::App;
use relax_player::app::Channel;
use relax_player::app::Key;
use relax_player::config::Config;
use relax_player::config::SoundConfig;
use relax_player::download::after_download;
use relax_player::download::needs_update;
use relax_player::download::required_sounds;
use relax_player::download::sounds_plan;
use relax_player::download::DownloadOutcome;
use relax_player::download::SoundsPlan;
use relax_player::prompt::prompt_decision;
use relax_player::prompt::PromptType;
use relax_player::ui::filled_cells;

fn default_app() -> App {
    App::new(Config::default())
}

#[test]
fn channel_names() {
    assert_eq!(Channel::Rain.name(), "Rain");
    assert_eq!(Channel::Thunder.name(), "Thunder");
    assert_eq!(Channel::Campfire.name(), "Campfire");
    assert_eq!(Channel::Master.name(), "Master");
}

#[test]
fn channel_order() {
    assert_eq!(
        Channel::all(),
        [Channel::Rain, Channel::Thunder, Channel::Campfire, Channel::Master]
    );
}

#[test]
fn navigation_saturates() {
    assert_eq!(Channel::Rain.prev(), Channel::Rain);
    assert_eq!(Channel::Master.next(), Channel::Master);
    assert_eq!(Channel::Rain.next(), Channel::Thunder);
    assert_eq!(Channel::Thunder.next(), Channel::Campfire);
    assert_eq!(Channel::Campfire.next(), Channel::Master);
    assert_eq!(Channel::Master.prev(), Channel::Campfire);
    assert_eq!(Channel::Campfire.prev(), Channel::Thunder);
    assert_eq!(Channel::Thunder.prev(), Channel::Rain);
    // next(prev(c)) == c away from the lower boundary
    for c in [Channel::Thunder, Channel::Campfire, Channel::Master] {
        assert_eq!(c.prev().next(), c);
    }
    // prev(next(c)) == c away from the upper boundary
    for c in [Channel::Rain, Channel::Thunder, Channel::Campfire] {
        assert_eq!(c.next().prev(), c);
    }
}

#[test]
fn default_config_values() {
    let cfg = Config::default();
    assert_eq!(cfg.rain.volume, 70);
    assert_eq!(cfg.thunder.volume, 70);
    assert_eq!(cfg.campfire.volume, 70);
    assert_eq!(cfg.master.volume, 70);
    assert!(!cfg.rain.muted);
    assert!(!cfg.thunder.muted);
    assert!(!cfg.campfire.muted);
    assert!(!cfg.master.muted);
    assert_eq!(cfg.sounds_version, None);
}

#[test]
fn five_increases_from_default() {
    // Default rain volume is 70; five steps of +5 end at 95, not 100.
    let mut app = default_app();
    for _ in 0..5 {
        app.increase_volume();
    }
    assert_eq!(app.get_volume(Channel::Rain), 95);
}

#[test]
fn increase_clamps_at_hundred() {
    let mut app = default_app();
    app.config.rain.volume = 98;
    app.increase_volume();
    assert_eq!(app.get_volume(Channel::Rain), 100);
    app.increase_volume();
    assert_eq!(app.get_volume(Channel::Rain), 100);
    // After clamping, a decrease steps back to 95, not 98.
    app.decrease_volume();
    assert_eq!(app.get_volume(Channel::Rain), 95);
}

#[test]
fn decrease_saturates_at_zero() {
    let mut app = default_app();
    app.config.rain.volume = 2;
    app.decrease_volume();
    assert_eq!(app.get_volume(Channel::Rain), 0);
    app.decrease_volume();
    assert_eq!(app.get_volume(Channel::Rain), 0);
}

#[test]
fn step_round_trip_away_from_boundaries() {
    let mut app = default_app();
    app.increase_volume();
    app.decrease_volume();
    assert_eq!(app.get_volume(Channel::Rain), 70);
    app.decrease_volume();
    app.increase_volume();
    assert_eq!(app.get_volume(Channel::Rain), 70);
}

#[test]
fn toggle_mute_on_channel() {
    let mut app = default_app();
    app.toggle_mute();
    assert!(app.is_muted(Channel::Rain));
    app.toggle_mute();
    assert!(!app.is_muted(Channel::Rain));
}

#[test]
fn master_mute_is_noop() {
    let mut app = default_app();
    // Move selection to Master.
    app.select_next();
    app.select_next();
    app.select_next();
    assert_eq!(app.selected_channel, Channel::Master);
    let before_volume = app.get_volume(Channel::Master);
    let save = app.handle_key_event(Key::Char('m'));
    assert!(!save, "master mute must not trigger a save");
    assert!(!app.is_muted(Channel::Master));
    assert!(!app.config.master.muted);
    assert_eq!(app.get_volume(Channel::Master), before_volume);
    assert_eq!(app.selected_channel, Channel::Master);
    assert!(!app.should_quit);
}

#[test]
fn key_bindings() {
    let mut app = default_app();
    assert!(!app.handle_key_event(Key::Right));
    assert_eq!(app.selected_channel, Channel::Thunder);
    assert!(!app.handle_key_event(Key::Char('h')));
    assert_eq!(app.selected_channel, Channel::Rain);
    assert!(app.handle_key_event(Key::Up));
    assert_eq!(app.get_volume(Channel::Rain), 75);
    assert!(app.handle_key_event(Key::Char('j')));
    assert_eq!(app.get_volume(Channel::Rain), 70);
    assert!(app.handle_key_event(Key::Char('m')));
    assert!(app.is_muted(Channel::Rain));
    assert!(!app.handle_key_event(Key::Char('x')));
    assert!(!app.should_quit);
    assert!(!app.handle_key_event(Key::Char('q')));
    assert!(app.should_quit);
}

#[test]
fn effective_volume_formula() {
    let mut cfg = Config::default();
    cfg.rain = SoundConfig { volume: 50, muted: false };
    cfg.master = SoundConfig { volume: 80, muted: false };
    // (50/100) * (80/100) = 0.4 of full scale, in units of 1/10000.
    assert_eq!(cfg.effective_volume(Channel::Rain), 4000);
    // A muted channel is silent.
    cfg.rain.muted = true;
    assert_eq!(cfg.effective_volume(Channel::Rain), 0);
    // Master's gain ignores its own mute flag, and so do the others.
    cfg.rain.muted = false;
    cfg.master.muted = true;
    assert_eq!(cfg.effective_volume(Channel::Rain), 4000);
    assert_eq!(cfg.effective_volume(Channel::Master), 8000);
    // Full scale.
    cfg.rain.volume = 100;
    cfg.master.volume = 100;
    assert_eq!(cfg.effective_volume(Channel::Rain), 10000);
}

#[test]
fn needs_update_cases() {
    assert!(needs_update("0.2.0", None));
    assert!(needs_update("0.2.0", Some("0.1.0")));
    assert!(!needs_update("0.2.0", Some("0.2.0")));
}

#[test]
fn sounds_plan_cases() {
    assert_eq!(sounds_plan(true, false, "1.0", None), SoundsPlan::UseLocal);
    assert_eq!(sounds_plan(false, false, "1.0", None), SoundsPlan::Download);
    assert_eq!(sounds_plan(false, true, "1.0", None), SoundsPlan::Ask);
    assert_eq!(sounds_plan(false, true, "1.0", Some("0.9")), SoundsPlan::Ask);
    assert_eq!(sounds_plan(false, true, "1.0", Some("1.0")), SoundsPlan::Keep);
}

#[test]
fn after_download_records_version() {
    let mut cfg = Config::default();
    let outcome = after_download(&mut cfg, true, false, "0.2.0");
    assert_eq!(outcome, DownloadOutcome::Recorded);
    assert_eq!(cfg.sounds_version.as_deref(), Some("0.2.0"));
}

#[test]
fn after_download_failure_keeps_stale_assets() {
    let mut cfg = Config::default();
    cfg.sounds_version = Some(String::from("0.1.0"));
    let outcome = after_download(&mut cfg, false, true, "0.2.0");
    assert_eq!(outcome, DownloadOutcome::KeptStale);
    assert_eq!(cfg.sounds_version.as_deref(), Some("0.1.0"));
    let outcome = after_download(&mut cfg, false, false, "0.2.0");
    assert_eq!(outcome, DownloadOutcome::Fatal);
}

#[test]
fn required_sound_files() {
    assert_eq!(required_sounds(), ["rain.mp3", "thunder.mp3", "campfire.mp3"]);
}

#[test]
fn prompt_decisions() {
    assert_eq!(prompt_decision(PromptType::Info, Key::Other), Some(true));
    assert_eq!(prompt_decision(PromptType::YesNo, Key::Char('y')), Some(true));
    assert_eq!(prompt_decision(PromptType::YesNo, Key::Char('Y')), Some(true));
    assert_eq!(prompt_decision(PromptType::YesNo, Key::Char('n')), Some(false));
    assert_eq!(prompt_decision(PromptType::YesNo, Key::Esc), Some(false));
    assert_eq!(prompt_decision(PromptType::YesNo, Key::Char('z')), None);
    assert_eq!(prompt_decision(PromptType::Error, Key::Enter), Some(false));
    assert_eq!(prompt_decision(PromptType::Error, Key::Char('y')), None);
}

#[test]
fn volume_bar_fill() {
    // volume/100 of the height, rounded half-up, capped at the height.
    assert_eq!(filled_cells(70, 10), 7);
    assert_eq!(filled_cells(50, 3), 2);
    assert_eq!(filled_cells(33, 3), 1);
    assert_eq!(filled_cells(100, 7), 7);
    assert_eq!(filled_cells(0, 12), 0);
    assert_eq!(filled_cells(5, 0), 0);
}
