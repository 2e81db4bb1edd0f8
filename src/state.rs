//! The state behind the program's window: the chosen directories, the
//! schedule, the status image and the theme, and how each user action changes
//! them.
use crate::config::{opt_view, Config, ConfigView};
use crate::scheduler::{countdown_secs, countdown_total, rearms, Countdown, Scheduler, SchedulerView, StartAction};
use vstd::prelude::*;

verus! {

/// The picture that shows how backups stand.
#[derive(Clone, Copy, Debug, PartialEq, Eq, Structural)]
pub enum StatusImage {
    Normal,
    Active,
    Error,
}

pub open spec fn image_path(i: StatusImage) -> Seq<char> {
    match i {
        StatusImage::Normal => "assets/normal.png"@,
        StatusImage::Active => "assets/active.png"@,
        StatusImage::Error => "assets/error.png"@,
    }
}

impl StatusImage {
    pub fn path(&self) -> (r: &'static str)
        ensures
            r@ == image_path(*self),
    {
        match self {
            StatusImage::Normal => "assets/normal.png",
            StatusImage::Active => "assets/active.png",
            StatusImage::Error => "assets/error.png",
        }
    }
}

fn clone_opt(o: &Option<String>) -> (r: Option<String>)
    ensures
        opt_view(r) == opt_view(*o),
{
    match o {
        Some(s) => Some(s.clone()),
        None => None,
    }
}

pub struct RustCraft {
    pub minecraft_directory: Option<String>,
    pub backup_directory: Option<String>,
    pub schedule: Scheduler,
    pub image: StatusImage,
    pub dark_theme: bool,
}

impl RustCraft {
    pub open spec fn wf(&self) -> bool {
        self.schedule.wf()
    }

    pub open spec fn paths_set(&self) -> bool {
        self.minecraft_directory.is_some() && self.backup_directory.is_some()
    }

    /// The state at start-up, from the stored settings.
    pub fn new(config: Config) -> (r: RustCraft)
        ensures
            r.wf(),
            opt_view(r.minecraft_directory) == config@.source_dir,
            opt_view(r.backup_directory) == config@.backup_dir,
            r.schedule@ == (SchedulerView {
                interval_hours: config.interval_hours,
                active: false,
                last_run_at: None,
            }),
            r.image == StatusImage::Normal,
            !r.dark_theme,
    {
        RustCraft {
            minecraft_directory: config.source_dir,
            backup_directory: config.backup_dir,
            schedule: Scheduler::new(config.interval_hours),
            image: StatusImage::Normal,
            dark_theme: false,
        }
    }

    pub fn toggle_theme(&mut self)
        ensures
            final(self).dark_theme == !old(self).dark_theme,
            final(self).minecraft_directory == old(self).minecraft_directory,
            final(self).backup_directory == old(self).backup_directory,
            final(self).schedule == old(self).schedule,
            final(self).image == old(self).image,
    {
        self.dark_theme = !self.dark_theme;
    }

    /// The settings to store.
    pub fn settings(&self) -> (r: Config)
        ensures
            r@ == (ConfigView {
                source_dir: opt_view(self.minecraft_directory),
                backup_dir: opt_view(self.backup_directory),
                interval_hours: self.schedule@.interval_hours,
            }),
    {
        Config {
            source_dir: clone_opt(&self.minecraft_directory),
            backup_dir: clone_opt(&self.backup_directory),
            interval_hours: self.schedule.interval_hours(),
        }
    }

    /// The start control, pressed at `now` (see `Scheduler::press_start`).
    /// Stopping shows the normal image, starting a schedule the active one.
    pub fn start_pressed(&mut self, now: u64) -> (r: StartAction)
        requires
            old(self).wf(),
        ensures
            final(self).wf(),
            r == StartAction::StopWorker <==> old(self).schedule@.active,
            old(self).schedule@.active ==> final(self).schedule@ == (SchedulerView {
                active: false,
                ..old(self).schedule@
            }) && final(self).image == StatusImage::Normal,
            !old(self).schedule@.active && !old(self).paths_set() ==> r == StartAction::Ignored
                && final(self).schedule@ == old(self).schedule@ && final(self).image == old(
                self,
            ).image,
            !old(self).schedule@.active && old(self).paths_set() && old(self).schedule@.interval_hours
                == 0 ==> r == StartAction::RunOnce && final(self).schedule@ == old(self).schedule@
                && final(self).image == old(self).image,
            !old(self).schedule@.active && old(self).paths_set() && old(self).schedule@.interval_hours
                > 0 ==> r == (StartAction::SpawnWorker {
                period_secs: (old(self).schedule@.interval_hours * 3600) as u64,
            }) && final(self).schedule@ == (SchedulerView {
                interval_hours: old(self).schedule@.interval_hours,
                active: true,
                last_run_at: Some(now),
            }) && final(self).image == StatusImage::Active,
            final(self).minecraft_directory == old(self).minecraft_directory,
            final(self).backup_directory == old(self).backup_directory,
            final(self).dark_theme == old(self).dark_theme,
    {
        let paths_set = self.minecraft_directory.is_some() && self.backup_directory.is_some();
        let action = self.schedule.press_start(paths_set, now);
        match action {
            StartAction::StopWorker => {
                self.image = StatusImage::Normal;
            },
            StartAction::SpawnWorker { .. } => {
                self.image = StatusImage::Active;
            },
            _ => {},
        }
        action
    }

    /// A one-shot copy has ended, well or not.
    pub fn one_shot_finished(&mut self, ok: bool)
        ensures
            final(self).image == if ok {
                StatusImage::Normal
            } else {
                StatusImage::Error
            },
            final(self).schedule == old(self).schedule,
            final(self).minecraft_directory == old(self).minecraft_directory,
            final(self).backup_directory == old(self).backup_directory,
            final(self).dark_theme == old(self).dark_theme,
    {
        self.image = if ok {
            StatusImage::Normal
        } else {
            StatusImage::Error
        };
    }

    /// A scheduled copy failed: the schedule ends and the error image shows.
    /// Returns whether the schedule was active.
    pub fn scheduled_run_failed(&mut self) -> (r: bool)
        requires
            old(self).wf(),
        ensures
            final(self).wf(),
            r == old(self).schedule@.active,
            final(self).schedule@ == (SchedulerView { active: false, ..old(self).schedule@ }),
            final(self).image == StatusImage::Error,
            final(self).minecraft_directory == old(self).minecraft_directory,
            final(self).backup_directory == old(self).backup_directory,
            final(self).dark_theme == old(self).dark_theme,
    {
        self.image = StatusImage::Error;
        self.schedule.run_failed()
    }

    /// The interval slider moved (see `Scheduler::set_interval`). Returns
    /// whether a worker is to be cancelled; the settings are to be stored.
    pub fn schedule_changed(&mut self, hours: u32) -> (r: bool)
        requires
            old(self).wf(),
        ensures
            final(self).wf(),
            r == (hours == 0 && old(self).schedule@.active),
            final(self).schedule@ == (SchedulerView {
                interval_hours: hours,
                active: old(self).schedule@.active && hours != 0,
                last_run_at: old(self).schedule@.last_run_at,
            }),
            final(self).image == old(self).image,
            final(self).minecraft_directory == old(self).minecraft_directory,
            final(self).backup_directory == old(self).backup_directory,
            final(self).dark_theme == old(self).dark_theme,
    {
        self.schedule.set_interval(hours)
    }

    /// A source directory was chosen, or the choice was cancelled.
    pub fn source_selected(&mut self, path: Option<String>)
        ensures
            final(self).minecraft_directory == path,
            final(self).backup_directory == old(self).backup_directory,
            final(self).schedule == old(self).schedule,
            final(self).image == old(self).image,
            final(self).dark_theme == old(self).dark_theme,
    {
        self.minecraft_directory = path;
    }

    /// A destination directory was chosen, or the choice was cancelled.
    pub fn backup_selected(&mut self, path: Option<String>)
        ensures
            final(self).backup_directory == path,
            final(self).minecraft_directory == old(self).minecraft_directory,
            final(self).schedule == old(self).schedule,
            final(self).image == old(self).image,
            final(self).dark_theme == old(self).dark_theme,
    {
        self.backup_directory = path;
    }

    /// The countdown at `now` (see `Scheduler::time_remaining`).
    pub fn tick(&mut self, now: u64) -> (r: Countdown)
        requires
            old(self).wf(),
        ensures
            final(self).wf(),
            countdown_total(r) == countdown_secs(old(self).schedule@, now),
            r.minutes < 60,
            r.seconds < 60,
            final(self).schedule@ == (SchedulerView {
                last_run_at: if rearms(old(self).schedule@, now) {
                    Some(now)
                } else {
                    old(self).schedule@.last_run_at
                },
                ..old(self).schedule@
            }),
            final(self).image == old(self).image,
            final(self).minecraft_directory == old(self).minecraft_directory,
            final(self).backup_directory == old(self).backup_directory,
            final(self).dark_theme == old(self).dark_theme,
    {
        self.schedule.time_remaining(now)
    }

    /// The start control takes presses when both directories are chosen, and
    /// while a schedule runs (to stop it).
    pub fn start_enabled(&self) -> (r: bool)
        ensures
            r == (self.paths_set() || self.schedule@.active),
    {
        (self.minecraft_directory.is_some() && self.backup_directory.is_some())
            || self.schedule.is_active()
    }

    /// The directories can be changed only while no schedule runs.
    pub fn pickers_enabled(&self) -> (r: bool)
        ensures
            r == !self.schedule@.active,
    {
        !self.schedule.is_active()
    }
}

} // verus!
