use vstd::prelude::*;

use crate::config::Config;
use crate::config::SoundConfig;

verus! {

/// The four mixer channels, in display order. `Master` is distinguished:
/// it has no independent mute and scales the other three channels.
#[derive(Clone, Copy, PartialEq, Eq, Structural, Debug)]
pub enum Channel {
    Rain,
    Thunder,
    Campfire,
    Master,
}

pub open spec fn spec_channel_name(c: Channel) -> Seq<char> {
    match c {
        Channel::Rain => "Rain"@,
        Channel::Thunder => "Thunder"@,
        Channel::Campfire => "Campfire"@,
        Channel::Master => "Master"@,
    }
}

pub open spec fn spec_next(c: Channel) -> Channel {
    match c {
        Channel::Rain => Channel::Thunder,
        Channel::Thunder => Channel::Campfire,
        Channel::Campfire => Channel::Master,
        Channel::Master => Channel::Master,
    }
}

pub open spec fn spec_prev(c: Channel) -> Channel {
    match c {
        Channel::Rain => Channel::Rain,
        Channel::Thunder => Channel::Rain,
        Channel::Campfire => Channel::Thunder,
        Channel::Master => Channel::Campfire,
    }
}

impl Channel {
    /// Get the name of this channel for display.
    pub fn name(&self) -> (r: &str)
        ensures
            r@ == spec_channel_name(*self),
    {
        match self {
            Channel::Rain => "Rain",
            Channel::Thunder => "Thunder",
            Channel::Campfire => "Campfire",
            Channel::Master => "Master",
        }
    }

    /// Get all channels in display order.
    pub fn all() -> (r: [Channel; 4])
        ensures
            r@ == seq![Channel::Rain, Channel::Thunder, Channel::Campfire, Channel::Master],
    {
        let r = [Channel::Rain, Channel::Thunder, Channel::Campfire, Channel::Master];
        proof {
            assert(r@ =~= seq![Channel::Rain, Channel::Thunder, Channel::Campfire, Channel::Master]);
        }
        r
    }

    /// Move to the next channel (right); saturates at `Master`.
    pub fn next(&self) -> (r: Self)
        ensures
            r == spec_next(*self),
    {
        match self {
            Channel::Rain => Channel::Thunder,
            Channel::Thunder => Channel::Campfire,
            Channel::Campfire => Channel::Master,
            Channel::Master => Channel::Master,
        }
    }

    /// Move to the previous channel (left); saturates at `Rain`.
    pub fn prev(&self) -> (r: Self)
        ensures
            r == spec_prev(*self),
    {
        match self {
            Channel::Rain => Channel::Rain,
            Channel::Thunder => Channel::Rain,
            Channel::Campfire => Channel::Thunder,
            Channel::Master => Channel::Campfire,
        }
    }
}

/// Navigation is saturating, not cyclic: `next` and `prev` undo each other
/// away from the ends, and the ends are fixed points.
pub proof fn lemma_navigation_saturates(c: Channel)
    ensures
        c != Channel::Rain ==> spec_next(spec_prev(c)) == c,
        c != Channel::Master ==> spec_prev(spec_next(c)) == c,
        spec_prev(Channel::Rain) == Channel::Rain,
        spec_next(Channel::Master) == Channel::Master,
{
}

/// A key press, reduced to what the control loop distinguishes.
#[derive(Clone, Copy, PartialEq, Eq, Structural, Debug)]
pub enum Key {
    Char(char),
    Left,
    Right,
    Up,
    Down,
    Enter,
    Esc,
    Other,
}

/// One volume step up: +5, clamped at 100.
pub open spec fn inc_vol(v: u8) -> u8 {
    if v <= 95 {
        (v + 5) as u8
    } else {
        100
    }
}

/// One volume step down: -5, saturating at 0.
pub open spec fn dec_vol(v: u8) -> u8 {
    if v >= 5 {
        (v - 5) as u8
    } else {
        0
    }
}

/// A volume step up followed by a step down (or vice versa) returns to the
/// starting volume, unless clamping occurred at a boundary.
pub proof fn lemma_volume_step_round_trip(v: u8)
    requires
        v <= 100,
    ensures
        v + 5 <= 100 ==> dec_vol(inc_vol(v)) == v,
        v >= 5 ==> inc_vol(dec_vol(v)) == v,
{
}

pub open spec fn spec_channel_sound(c: Config, ch: Channel) -> SoundConfig {
    match ch {
        Channel::Rain => c.rain,
        Channel::Thunder => c.thunder,
        Channel::Campfire => c.campfire,
        Channel::Master => c.master,
    }
}

pub open spec fn spec_with_sound(c: Config, ch: Channel, s: SoundConfig) -> Config {
    match ch {
        Channel::Rain => Config { rain: s, ..c },
        Channel::Thunder => Config { thunder: s, ..c },
        Channel::Campfire => Config { campfire: s, ..c },
        Channel::Master => Config { master: s, ..c },
    }
}

/// The interactive mixer state: the persisted configuration plus the
/// transient selection and quit flag.
pub struct App {
    pub config: Config,
    pub selected_channel: Channel,
    pub should_quit: bool,
}

pub open spec fn spec_increase(a: App) -> App {
    let s = spec_channel_sound(a.config, a.selected_channel);
    App {
        config: spec_with_sound(
            a.config,
            a.selected_channel,
            SoundConfig { volume: inc_vol(s.volume), muted: s.muted },
        ),
        ..a
    }
}

pub open spec fn spec_decrease(a: App) -> App {
    let s = spec_channel_sound(a.config, a.selected_channel);
    App {
        config: spec_with_sound(
            a.config,
            a.selected_channel,
            SoundConfig { volume: dec_vol(s.volume), muted: s.muted },
        ),
        ..a
    }
}

/// Toggling mute flips the selected channel's flag; on `Master` it is a no-op.
pub open spec fn spec_toggle(a: App) -> App {
    if a.selected_channel == Channel::Master {
        a
    } else {
        let s = spec_channel_sound(a.config, a.selected_channel);
        App {
            config: spec_with_sound(
                a.config,
                a.selected_channel,
                SoundConfig { volume: s.volume, muted: !s.muted },
            ),
            ..a
        }
    }
}

/// The control loop's transition function: next state and whether the
/// configuration must be persisted afterwards.
pub open spec fn spec_handle_key(a: App, key: Key) -> (App, bool) {
    if key == Key::Char('q') || key == Key::Char('Q') {
        (App { should_quit: true, ..a }, false)
    } else if key == Key::Left || key == Key::Char('h') {
        (App { selected_channel: spec_prev(a.selected_channel), ..a }, false)
    } else if key == Key::Right || key == Key::Char('l') {
        (App { selected_channel: spec_next(a.selected_channel), ..a }, false)
    } else if key == Key::Up || key == Key::Char('k') {
        (spec_increase(a), true)
    } else if key == Key::Down || key == Key::Char('j') {
        (spec_decrease(a), true)
    } else if key == Key::Char('m') || key == Key::Char('M') {
        (spec_toggle(a), a.selected_channel != Channel::Master)
    } else {
        (a, false)
    }
}

impl App {
    /// Start the control loop on a loaded configuration: selection begins at
    /// `Rain` and the loop is not quitting.
    pub fn new(config: Config) -> (r: Self)
        ensures
            r.config == config,
            r.selected_channel == Channel::Rain,
            !r.should_quit,
    {
        App { config, selected_channel: Channel::Rain, should_quit: false }
    }

    /// Move selection to the next channel (right).
    pub fn select_next(&mut self)
        ensures
            *final(self) == (App {
                selected_channel: spec_next(old(self).selected_channel),
                ..*old(self)
            }),
    {
        self.selected_channel = self.selected_channel.next();
    }

    /// Move selection to the previous channel (left).
    pub fn select_prev(&mut self)
        ensures
            *final(self) == (App {
                selected_channel: spec_prev(old(self).selected_channel),
                ..*old(self)
            }),
    {
        self.selected_channel = self.selected_channel.prev();
    }

    /// Increase volume of the selected channel by one step.
    pub fn increase_volume(&mut self)
        ensures
            *final(self) == spec_increase(*old(self)),
    {
        match self.selected_channel {
            Channel::Rain => {
                self.config.rain.volume = if self.config.rain.volume <= 95 {
                    self.config.rain.volume + 5
                } else {
                    100
                };
            },
            Channel::Thunder => {
                self.config.thunder.volume = if self.config.thunder.volume <= 95 {
                    self.config.thunder.volume + 5
                } else {
                    100
                };
            },
            Channel::Campfire => {
                self.config.campfire.volume = if self.config.campfire.volume <= 95 {
                    self.config.campfire.volume + 5
                } else {
                    100
                };
            },
            Channel::Master => {
                self.config.master.volume = if self.config.master.volume <= 95 {
                    self.config.master.volume + 5
                } else {
                    100
                };
            },
        }
    }

    /// Decrease volume of the selected channel by one step.
    pub fn decrease_volume(&mut self)
        ensures
            *final(self) == spec_decrease(*old(self)),
    {
        match self.selected_channel {
            Channel::Rain => {
                self.config.rain.volume = if self.config.rain.volume >= 5 {
                    self.config.rain.volume - 5
                } else {
                    0
                };
            },
            Channel::Thunder => {
                self.config.thunder.volume = if self.config.thunder.volume >= 5 {
                    self.config.thunder.volume - 5
                } else {
                    0
                };
            },
            Channel::Campfire => {
                self.config.campfire.volume = if self.config.campfire.volume >= 5 {
                    self.config.campfire.volume - 5
                } else {
                    0
                };
            },
            Channel::Master => {
                self.config.master.volume = if self.config.master.volume >= 5 {
                    self.config.master.volume - 5
                } else {
                    0
                };
            },
        }
    }

    /// Toggle mute for the selected channel; `Master` has no mute, so the
    /// state is left untouched there.
    pub fn toggle_mute(&mut self)
        ensures
            *final(self) == spec_toggle(*old(self)),
    {
        match self.selected_channel {
            Channel::Rain => {
                self.config.rain.muted = !self.config.rain.muted;
            },
            Channel::Thunder => {
                self.config.thunder.muted = !self.config.thunder.muted;
            },
            Channel::Campfire => {
                self.config.campfire.muted = !self.config.campfire.muted;
            },
            Channel::Master => {},
        }
    }

    /// Apply one key press to the state. Returns true when the configuration
    /// changed and must be persisted.
    pub fn handle_key_event(&mut self, key: Key) -> (save: bool)
        ensures
            (*final(self), save) == spec_handle_key(*old(self), key),
    {
        match key {
            Key::Char('q') | Key::Char('Q') => {
                self.quit();
                false
            },
            Key::Left | Key::Char('h') => {
                self.select_prev();
                false
            },
            Key::Right | Key::Char('l') => {
                self.select_next();
                false
            },
            Key::Up | Key::Char('k') => {
                self.increase_volume();
                true
            },
            Key::Down | Key::Char('j') => {
                self.decrease_volume();
                true
            },
            Key::Char('m') | Key::Char('M') => {
                let save = self.selected_channel != Channel::Master;
                self.toggle_mute();
                save
            },
            _ => false,
        }
    }

    /// Get the volume for a channel (0-100).
    pub fn get_volume(&self, channel: Channel) -> (r: u8)
        ensures
            r == spec_channel_sound(self.config, channel).volume,
    {
        match channel {
            Channel::Rain => self.config.rain.volume,
            Channel::Thunder => self.config.thunder.volume,
            Channel::Campfire => self.config.campfire.volume,
            Channel::Master => self.config.master.volume,
        }
    }

    /// Check if a channel is muted; `Master` never reports as muted.
    pub fn is_muted(&self, channel: Channel) -> (r: bool)
        ensures
            r == (channel != Channel::Master && spec_channel_sound(self.config, channel).muted),
    {
        match channel {
            Channel::Rain => self.config.rain.muted,
            Channel::Thunder => self.config.thunder.muted,
            Channel::Campfire => self.config.campfire.muted,
            Channel::Master => false,
        }
    }

    /// Ask the control loop to stop.
    pub fn quit(&mut self)
        ensures
            *final(self) == (App { should_quit: true, ..*old(self) }),
    {
        self.should_quit = true;
    }
}

/// Toggling mute with `Master` selected changes nothing and triggers no save.
pub proof fn lemma_master_mute_noop(a: App, key: Key)
    requires
        a.selected_channel == Channel::Master,
        key == Key::Char('m') || key == Key::Char('M'),
    ensures
        spec_handle_key(a, key) == (a, false),
{
}

} // verus!
