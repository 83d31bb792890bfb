//! Frame and reload bookkeeping of a running sketch. Times are instants in
//! microseconds, as the clock gives them to the caller.
use vstd::prelude::*;

verus! {

/// How long a successful reload waits before the config is checked again.
pub const RELOAD_DELAY_MICROS: u128 = 1_000_000;

/// How long a failed reload waits before the config is checked again.
pub const ERROR_RELOAD_DELAY_MICROS: u128 = 500_000;

/// The frames and instants a sketch keeps track of.
#[derive(Copy, Clone, Debug)]
pub struct LiveCodeTiming {
    /// when time was last reset
    pub start: u128,
    /// frames since time was last reset
    pub frame: u64,
    /// the frame count at which time was last reset
    pub start_frame: u64,
    /// when the sketch started; not moved by a reset
    pub true_start: u128,
    pub last_config_update: u128,
    pub last_config_update_frame: u64,
    /// used for the realtime bar update and to measure time between frames
    pub last_render_time: u128,
    pub prev_render_time: u128,
}

impl LiveCodeTiming {
    /// Timing that starts at `now`, at frame zero.
    pub fn new(now: u128) -> (r: Self)
        ensures
            r.start == now && r.true_start == now && r.last_config_update == now,
            r.last_render_time == now && r.prev_render_time == now,
            r.frame == 0 && r.start_frame == 0 && r.last_config_update_frame == 0,
    {
        LiveCodeTiming {
            start: now,
            frame: 0,
            start_frame: 0,
            true_start: now,
            last_config_update: now,
            last_config_update_frame: 0,
            last_render_time: now,
            prev_render_time: now,
        }
    }

    pub fn frame(&self) -> (r: u64)
        ensures
            r == self.frame,
    {
        self.frame
    }

    pub fn true_start(&self) -> (r: u128)
        ensures
            r == self.true_start,
    {
        self.true_start
    }

    /// Records that the config changed at `now`, at the current frame.
    pub fn config_updated(&mut self, now: u128)
        ensures
            *final(self) == (LiveCodeTiming { last_config_update: now, last_config_update_frame: old(self).frame, ..*old(self) }),
    {
        self.last_config_update = now;
        self.last_config_update_frame = self.frame;
    }

    /// Starts counting time again at `now` from the current frame.
    pub fn reset_time(&mut self, now: u128)
        ensures
            *final(self) == (LiveCodeTiming { start: now, start_frame: old(self).frame, ..*old(self) }),
    {
        self.start = now;
        self.start_frame = self.frame;
    }

    /// Records a render at `now`, keeping the one before.
    pub fn set_last_render_time(&mut self, now: u128)
        ensures
            *final(self) == (LiveCodeTiming { prev_render_time: old(self).last_render_time, last_render_time: now, ..*old(self) }),
    {
        self.prev_render_time = self.last_render_time;
        self.last_render_time = now;
    }

    /// Takes the app's frame count; frames are counted from the last reset.
    pub fn set_frame(&mut self, frame: u64)
        requires
            frame >= old(self).start_frame,
        ensures
            *final(self) == (LiveCodeTiming { frame: (frame - old(self).start_frame) as u64, ..*old(self) }),
    {
        self.frame = frame - self.start_frame;
    }

    /// Frames since the config last changed.
    pub fn frames_since_config_update(&self) -> (r: u64)
        requires
            self.frame >= self.last_config_update_frame,
        ensures
            r == self.frame - self.last_config_update_frame,
    {
        self.frame - self.last_config_update_frame
    }
}

/// When the config file is next looked at, and whether the last look
/// reloaded it.
#[derive(Copy, Clone, Debug)]
pub struct LiveCodeConfigInfo {
    pub config_next_check: u128,
    pub updated: bool,
}

impl LiveCodeConfigInfo {
    /// Info for a config that was just read at `now`: it counts as updated
    /// and is looked at again a second later.
    pub fn new(now: u128) -> (r: Self)
        requires
            now + RELOAD_DELAY_MICROS <= u128::MAX,
        ensures
            r.config_next_check == now + RELOAD_DELAY_MICROS,
            r.updated,
    {
        LiveCodeConfigInfo { config_next_check: now + RELOAD_DELAY_MICROS, updated: true }
    }

    /// Whether it is time to look at the config file.
    pub fn should_check(&self, now: u128) -> (r: bool)
        ensures
            r == (now > self.config_next_check),
    {
        now > self.config_next_check
    }

    pub fn reset(&mut self)
        ensures
            *final(self) == (LiveCodeConfigInfo { updated: false, ..*old(self) }),
    {
        self.updated = false;
    }

    pub fn update(&mut self, updated: bool, config_next_check: u128)
        ensures
            *final(self) == (LiveCodeConfigInfo { updated, config_next_check }),
    {
        self.updated = updated;
        self.config_next_check = config_next_check;
    }

    pub fn updated(&self) -> (r: bool)
        ensures
            r == self.updated,
    {
        self.updated
    }
}

/// The reload and frame state of a running sketch.
#[derive(Copy, Clone, Debug)]
pub struct LiveCodeUtil {
    pub info: LiveCodeConfigInfo,
    pub timing: LiveCodeTiming,
}

/// The state after the outcome of a reload at `now`: a success marks the
/// config updated, records the change at the current frame and waits a
/// second; a failure waits half a second.
pub open spec fn after_reload(u: LiveCodeUtil, now: u128, ok: bool) -> LiveCodeUtil {
    if ok {
        LiveCodeUtil {
            info: LiveCodeConfigInfo { updated: true, config_next_check: (now + RELOAD_DELAY_MICROS) as u128 },
            timing: LiveCodeTiming { last_config_update: now, last_config_update_frame: u.timing.frame, ..u.timing },
        }
    } else {
        LiveCodeUtil {
            info: LiveCodeConfigInfo { updated: false, config_next_check: (now + ERROR_RELOAD_DELAY_MICROS) as u128 },
            timing: u.timing,
        }
    }
}

/// Whether the config or one of its template files changed after the time
/// the next check was set for.
pub open spec fn newer_than_check(u: LiveCodeUtil, config_modified: u128, folder_modified: u128) -> bool {
    config_modified > u.info.config_next_check || folder_modified > u.info.config_next_check
}

impl LiveCodeUtil {
    /// The state of a sketch started at `now`.
    pub fn new(now: u128) -> (r: Self)
        requires
            now + RELOAD_DELAY_MICROS <= u128::MAX,
        ensures
            r.info.config_next_check == now + RELOAD_DELAY_MICROS,
            r.info.updated,
            r.timing == LiveCodeTiming::new_spec(now),
    {
        LiveCodeUtil { info: LiveCodeConfigInfo::new(now), timing: LiveCodeTiming::new(now) }
    }

    pub fn updated(&self) -> (r: bool)
        ensures
            r == self.info.updated,
    {
        self.info.updated()
    }

    pub fn update_with_frame(&mut self, frame: u64)
        requires
            frame >= old(self).timing.start_frame,
        ensures
            final(self).info == old(self).info,
            final(self).timing == (LiveCodeTiming { frame: (frame - old(self).timing.start_frame) as u64, ..old(self).timing }),
    {
        self.timing.set_frame(frame);
    }

    pub fn update_last_render_time(&mut self, now: u128)
        ensures
            final(self).info == old(self).info,
            final(self).timing == (LiveCodeTiming { prev_render_time: old(self).timing.last_render_time, last_render_time: now, ..old(self).timing }),
    {
        self.timing.set_last_render_time(now);
    }

    pub fn reset_time(&mut self, now: u128)
        ensures
            final(self).info == old(self).info,
            final(self).timing == (LiveCodeTiming { start: now, start_frame: old(self).timing.frame, ..old(self).timing }),
    {
        self.timing.reset_time(now);
    }

    pub fn should_check_config(&self, now: u128) -> (r: bool)
        ensures
            r == (now > self.info.config_next_check),
    {
        self.info.should_check(now)
    }

    pub fn reset_info(&mut self)
        ensures
            final(self).info == (LiveCodeConfigInfo { updated: false, ..old(self).info }),
            final(self).timing == old(self).timing,
    {
        self.info.reset();
    }

    /// Sets the reload outcome; an update also records the change time.
    pub fn update_info(&mut self, updated: bool, config_next_check: u128, now: u128)
        ensures
            final(self).info == (LiveCodeConfigInfo { updated, config_next_check }),
            updated ==> final(self).timing == (LiveCodeTiming { last_config_update: now, last_config_update_frame: old(self).timing.frame, ..old(self).timing }),
            !updated ==> final(self).timing == old(self).timing,
    {
        self.info.update(updated, config_next_check);
        if updated {
            self.timing.config_updated(now);
        }
    }

    /// A reload at `now` failed.
    pub fn update_info_error(&mut self, now: u128)
        requires
            now + ERROR_RELOAD_DELAY_MICROS <= u128::MAX,
        ensures
            *final(self) == after_reload(*old(self), now, false),
    {
        self.update_info(false, now + ERROR_RELOAD_DELAY_MICROS, now)
    }

    /// A reload at `now` succeeded.
    pub fn update_info_reloaded(&mut self, now: u128)
        requires
            now + RELOAD_DELAY_MICROS <= u128::MAX,
        ensures
            *final(self) == after_reload(*old(self), now, true),
    {
        self.update_info(true, now + RELOAD_DELAY_MICROS, now)
    }

    /// Decides, at `now`, whether to read the config again, given when the
    /// config file and its template folder were last modified. When it is
    /// time to look, the updated flag is cleared first; the config is read
    /// when either was modified after the time the check was set for.
    pub fn should_reload(&mut self, now: u128, config_modified: u128, folder_modified: u128) -> (r: bool)
        ensures
            r == (now > old(self).info.config_next_check && newer_than_check(*old(self), config_modified, folder_modified)),
            now > old(self).info.config_next_check ==> final(self).info == (LiveCodeConfigInfo { updated: false, ..old(self).info }),
            !(now > old(self).info.config_next_check) ==> final(self).info == old(self).info,
            final(self).timing == old(self).timing,
    {
        if self.should_check_config(now) {
            self.reset_info();
            config_modified > self.info.config_next_check || folder_modified > self.info.config_next_check
        } else {
            false
        }
    }
}

/// Records the outcome of a reload attempted at `now` and hands it back: the
/// updated flag is cleared, then the success or failure is set as
/// `update_info_reloaded` or `update_info_error` sets it.
pub fn cb_update_info<T>(util: &mut LiveCodeUtil, result: Result<T, String>, now: u128) -> (r: Result<T, String>)
    requires
        now + RELOAD_DELAY_MICROS <= u128::MAX,
    ensures
        r == result,
        *final(util) == after_reload(
            LiveCodeUtil { info: LiveCodeConfigInfo { updated: false, ..old(util).info }, ..*old(util) },
            now,
            result is Ok,
        ),
{
    util.reset_info();
    match result {
        Ok(x) => {
            util.update_info_reloaded(now);
            Ok(x)
        },
        Err(e) => {
            util.update_info_error(now);
            Err(e)
        },
    }
}

impl LiveCodeTiming {
    /// The model of a fresh timing.
    pub open spec fn new_spec(now: u128) -> LiveCodeTiming {
        LiveCodeTiming {
            start: now,
            frame: 0,
            start_frame: 0,
            true_start: now,
            last_config_update: now,
            last_config_update_frame: 0,
            last_render_time: now,
            prev_render_time: now,
        }
    }
}

/// Right after a reload, successful or not, it is not yet time to look at
/// the config again.
pub proof fn law_no_check_right_after_reload(u: LiveCodeUtil, now: u128, ok: bool)
    requires
        now + RELOAD_DELAY_MICROS <= u128::MAX,
    ensures
        !(now > after_reload(u, now, ok).info.config_next_check),
        after_reload(u, now, ok).info.updated == ok,
{
}

} // verus!
