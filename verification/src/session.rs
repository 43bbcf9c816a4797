//! What the host remembers between commands (the emulator it drives and the
//! app to auto-launch), how a start request is answered, and the boot watch:
//! the state machine that waits for the emulator to appear and finish
//! booting, polling adb with pauses in between.

use vstd::prelude::*;

use crate::text::{trim, trim_str};

verus! {

/// The serial of the emulator being driven (spawned or adopted) and the
/// package to launch once it has booted.
pub struct Session {
    pub serial: Option<String>,
    pub target_package: Option<String>,
}

/// The auto-launch target a package field sets: the trimmed text, or none
/// when that is empty.
pub open spec fn target_from_input(package: Seq<char>) -> Option<Seq<char>> {
    if trim(package).len() == 0 {
        None
    } else {
        Some(trim(package))
    }
}

/// The stored auto-launch target is never blank or padded, and entering it
/// again leaves it as it is.
pub proof fn lemma_target_normalized(package: Seq<char>)
    ensures
        target_from_input(package) matches Some(t) ==> t.len() > 0 && trim(t) == t
            && target_from_input(t) == Some(t),
{
    crate::text::lemma_trim_idempotent(package);
}

impl Session {
    /// Nothing driven, nothing to launch.
    pub fn new() -> (r: Session)
        ensures
            r.serial is None,
            r.target_package is None,
    {
        Session { serial: None, target_package: None }
    }

    /// Set the auto-launch package from user input: trimmed, and cleared
    /// when nothing but whitespace was entered.
    pub fn set_target_package(&mut self, package: &str)
        ensures
            final(self).target_package.deep_view() == target_from_input(package@),
            final(self).serial == old(self).serial,
    {
        let trimmed = trim_str(package);
        if trimmed.unicode_len() == 0 {
            self.target_package = None;
        } else {
            self.target_package = Some(trimmed);
        }
    }

    /// Record the emulator now being driven.
    pub fn set_serial(&mut self, serial: String)
        ensures
            final(self).serial == Some(serial),
            final(self).target_package == old(self).target_package,
    {
        self.serial = Some(serial);
    }

    /// Forget the driven emulator, handing back its serial for the shutdown
    /// command.
    pub fn stop(&mut self) -> (r: Option<String>)
        ensures
            r == old(self).serial,
            final(self).serial is None,
            final(self).target_package == old(self).target_package,
    {
        let s = self.serial.take();
        s
    }
}

/// How a start request is answered.
pub enum StartPlan {
    /// Refuse: the SDK is not ready.
    NotReady,
    /// An emulator is already online: drive it instead of launching another.
    Adopt(String),
    /// Launch the AVD, headless when scrcpy will show the display.
    Launch { headless: bool },
}

/// Refuse when the SDK is not ready; adopt an emulator that is already
/// online; otherwise launch, headless exactly when scrcpy is available.
pub open spec fn plan_start_spec(ready: bool, scrcpy_available: bool, online: Option<Seq<char>>) -> StartPlanView {
    if !ready {
        StartPlanView::NotReady
    } else {
        match online {
            Some(s) => StartPlanView::Adopt(s),
            None => StartPlanView::Launch { headless: scrcpy_available },
        }
    }
}

/// A start request made while an emulator is already online adopts it
/// instead of launching a duplicate; otherwise the emulator runs headless
/// exactly when scrcpy is there to show its display.
pub proof fn lemma_start_adopts_running(ready: bool, scrcpy_available: bool, online: Option<Seq<char>>)
    requires
        ready,
    ensures
        online matches Some(s) ==> plan_start_spec(ready, scrcpy_available, online)
            == StartPlanView::Adopt(s),
        online is None ==> plan_start_spec(ready, scrcpy_available, online)
            == (StartPlanView::Launch { headless: scrcpy_available }),
{
}

/// A start request made while the SDK is not ready is refused whatever else
/// holds: neither an online emulator nor scrcpy changes that. A ready SDK is
/// never refused.
pub proof fn lemma_start_refused_exactly_when_not_ready(
    ready: bool,
    scrcpy_available: bool,
    online: Option<Seq<char>>,
)
    ensures
        !ready ==> plan_start_spec(ready, scrcpy_available, online) == StartPlanView::NotReady,
        plan_start_spec(ready, scrcpy_available, online) is NotReady ==> !ready,
{
}

/// `StartPlan` with its serial as text.
pub enum StartPlanView {
    NotReady,
    Adopt(Seq<char>),
    Launch { headless: bool },
}

impl StartPlan {
    pub open spec fn view_plan(&self) -> StartPlanView {
        match self {
            StartPlan::NotReady => StartPlanView::NotReady,
            StartPlan::Adopt(s) => StartPlanView::Adopt(s@),
            StartPlan::Launch { headless } => StartPlanView::Launch { headless: *headless },
        }
    }
}

pub fn plan_start(ready: bool, scrcpy_available: bool, online: Option<String>) -> (r: StartPlan)
    ensures
        r.view_plan() == plan_start_spec(ready, scrcpy_available, online.deep_view()),
        r is NotReady <==> !ready,
        online matches Some(s) ==> (ready ==> r == StartPlan::Adopt(s)),
        online is None ==> (ready ==> r == (StartPlan::Launch { headless: scrcpy_available })),
{
    if !ready {
        return StartPlan::NotReady;
    }
    match online {
        Some(s) => StartPlan::Adopt(s),
        None => StartPlan::Launch { headless: scrcpy_available },
    }
}

/// The error a start request gets while the SDK is not ready.
pub fn not_ready_message() -> (r: String)
    ensures
        r@ == "SDK not ready — install components and create the AVD first."@,
{
    "SDK not ready — install components and create the AVD first.".to_owned()
}

/// How many times adb is asked for the emulator device (1 s apart).
pub const DEVICE_POLLS: u32 = 60;

/// How many times the device is asked whether it booted (2 s apart).
pub const BOOT_POLLS: u32 = 90;

/// Where the boot watch is.
pub enum BootWatch {
    /// About to ask adb for an online emulator; `polls` asked so far.
    FindDevice { polls: u32 },
    /// The `polls`-th ask found none; pausing before the next.
    DeviceWait { polls: u32 },
    /// The emulator appeared; about to record and announce it.
    DeviceFound { serial: String },
    /// About to ask whether `serial` booted; `polls` asked so far.
    AwaitBoot { serial: String, polls: u32 },
    /// The `polls`-th boot check was negative; pausing before the next.
    BootWait { serial: String, polls: u32 },
    /// `serial` finished booting; about to say so.
    Booted { serial: String },
    /// About to apply the kiosk settings.
    Kiosk { serial: String },
    /// About to read the auto-launch target.
    ReadTarget { serial: String },
    /// About to ask whether the target `package` is installed.
    CheckApp { serial: String, package: String },
    /// About to launch the installed target `package`.
    LaunchApp { serial: String, package: String },
    /// About to log how the auto-launch went.
    Report { serial: String, outcome: AutoLaunch },
    /// About to ask whether scrcpy is installed.
    CheckDisplay { serial: String },
    /// About to start scrcpy on the device.
    StartDisplay { serial: String },
    /// scrcpy started; about to say so.
    DisplayUp { serial: String },
    /// scrcpy is missing; about to say how to get it.
    NoDisplay { serial: String },
    /// The device is up and set up.
    Running { serial: String },
    /// No emulator appeared in time.
    NoDevice,
    /// The emulator did not finish booting in time.
    BootTimeout,
}

/// What the driver of the boot watch does next.
pub enum WatchAction {
    /// Ask adb for an online emulator.
    PollDevice,
    /// Pause for this many seconds.
    Sleep(u64),
    /// Record the device as the driven one and announce it.
    Announce(String),
    /// Ask the device whether it finished booting.
    PollBoot(String),
    /// Write this line to the log.
    Log(String),
    /// Apply the kiosk settings to the device.
    ApplyKiosk(String),
    /// Read the auto-launch target the user set.
    ReadTarget,
    /// Ask the device (first) whether the package (second) is installed.
    CheckInstalled(String, String),
    /// Launch the package (second) on the device (first).
    Launch(String, String),
    /// Ask whether scrcpy is installed.
    CheckScrcpy,
    /// Start scrcpy on the device, keeping its process.
    StartScrcpy(String),
    /// Give up with this message.
    Fail(String),
    /// The device is up and set up.
    Ready(String),
}

/// What the driver reports back.
pub enum WatchEvent {
    /// The answer of a device poll.
    Device(Option<String>),
    /// The pause is over.
    Slept,
    /// The action that has no answer was carried out.
    Done,
    /// The answer of a boot check.
    Boot(bool),
    /// The auto-launch target read.
    Target(Option<String>),
    /// Whether the target is installed.
    Installed(bool),
    /// Whether scrcpy is installed.
    ScrcpyFound(bool),
    /// Whether scrcpy started.
    Started(bool),
}

impl BootWatch {
    /// The watch as it starts: no device asked for yet.
    pub fn new() -> (r: BootWatch)
        ensures
            r == (BootWatch::FindDevice { polls: 0 }),
            r.wf(),
    {
        BootWatch::FindDevice { polls: 0 }
    }

    /// Poll counters stay within their limits.
    pub open spec fn wf(&self) -> bool {
        match self {
            BootWatch::FindDevice { polls } => *polls < DEVICE_POLLS,
            BootWatch::DeviceWait { polls } => 1 <= *polls <= DEVICE_POLLS,
            BootWatch::AwaitBoot { polls, .. } => *polls < BOOT_POLLS,
            BootWatch::BootWait { polls, .. } => 1 <= *polls <= BOOT_POLLS,
            _ => true,
        }
    }

    /// The watch is over.
    pub open spec fn is_final(&self) -> bool {
        match self {
            BootWatch::Running { .. } | BootWatch::NoDevice | BootWatch::BootTimeout => true,
            _ => false,
        }
    }

    /// An upper bound on the steps left.
    pub open spec fn steps_left(&self) -> nat {
        match self {
            BootWatch::FindDevice { polls } => (192 + 2 * (DEVICE_POLLS - *polls)) as nat,
            BootWatch::DeviceWait { polls } => (193 + 2 * (DEVICE_POLLS - *polls)) as nat,
            BootWatch::DeviceFound { .. } => 191,
            BootWatch::AwaitBoot { polls, .. } => (2 * (BOOT_POLLS - *polls) + 10) as nat,
            BootWatch::BootWait { polls, .. } => (2 * (BOOT_POLLS - *polls) + 11) as nat,
            BootWatch::Booted { .. } => 9,
            BootWatch::Kiosk { .. } => 8,
            BootWatch::ReadTarget { .. } => 7,
            BootWatch::CheckApp { .. } => 6,
            BootWatch::LaunchApp { .. } => 5,
            BootWatch::Report { .. } => 4,
            BootWatch::CheckDisplay { .. } => 3,
            BootWatch::StartDisplay { .. } => 2,
            BootWatch::DisplayUp { .. } | BootWatch::NoDisplay { .. } => 1,
            _ => 0,
        }
    }

    /// `e` is the kind of report that answers `self`'s next action.
    pub open spec fn expects(&self, e: WatchEvent) -> bool {
        match self {
            BootWatch::FindDevice { .. } => e is Device,
            BootWatch::DeviceWait { .. } | BootWatch::BootWait { .. } => e is Slept,
            BootWatch::AwaitBoot { .. } => e is Boot,
            BootWatch::ReadTarget { .. } => e is Target,
            BootWatch::CheckApp { .. } => e is Installed,
            BootWatch::CheckDisplay { .. } => e is ScrcpyFound,
            BootWatch::StartDisplay { .. } => e is Started,
            BootWatch::DeviceFound { .. } | BootWatch::Booted { .. } | BootWatch::Kiosk { .. }
            | BootWatch::LaunchApp { .. } | BootWatch::Report { .. } | BootWatch::DisplayUp { .. }
            | BootWatch::NoDisplay { .. } => e is Done,
            _ => false,
        }
    }

    /// The state after `e`; a report that does not answer the current action
    /// leaves the state as it is. Once booted, the device gets the kiosk
    /// settings, then the auto-launch (the target is launched only when it is
    /// installed), then the scrcpy display when scrcpy is installed.
    pub open spec fn advance_spec(self, e: WatchEvent) -> BootWatch {
        match (self, e) {
            (BootWatch::FindDevice { polls }, WatchEvent::Device(Some(s))) => BootWatch::DeviceFound {
                serial: s,
            },
            (BootWatch::FindDevice { polls }, WatchEvent::Device(None)) => BootWatch::DeviceWait {
                polls: (polls + 1) as u32,
            },
            (BootWatch::DeviceWait { polls }, WatchEvent::Slept) => if polls < DEVICE_POLLS {
                BootWatch::FindDevice { polls }
            } else {
                BootWatch::NoDevice
            },
            (BootWatch::DeviceFound { serial }, WatchEvent::Done) => BootWatch::AwaitBoot {
                serial,
                polls: 0,
            },
            (BootWatch::AwaitBoot { serial, polls }, WatchEvent::Boot(true)) => BootWatch::Booted {
                serial,
            },
            (BootWatch::AwaitBoot { serial, polls }, WatchEvent::Boot(false)) => BootWatch::BootWait {
                serial,
                polls: (polls + 1) as u32,
            },
            (BootWatch::BootWait { serial, polls }, WatchEvent::Slept) => if polls < BOOT_POLLS {
                BootWatch::AwaitBoot { serial, polls }
            } else {
                BootWatch::BootTimeout
            },
            (BootWatch::Booted { serial }, WatchEvent::Done) => BootWatch::Kiosk { serial },
            (BootWatch::Kiosk { serial }, WatchEvent::Done) => BootWatch::ReadTarget { serial },
            (BootWatch::ReadTarget { serial }, WatchEvent::Target(Some(package))) => BootWatch::CheckApp {
                serial,
                package,
            },
            (BootWatch::ReadTarget { serial }, WatchEvent::Target(None)) => BootWatch::Report {
                serial,
                outcome: AutoLaunch::NoTarget,
            },
            (BootWatch::CheckApp { serial, package }, WatchEvent::Installed(true)) => BootWatch::LaunchApp {
                serial,
                package,
            },
            (BootWatch::CheckApp { serial, package }, WatchEvent::Installed(false)) => BootWatch::Report {
                serial,
                outcome: AutoLaunch::NotInstalled(package),
            },
            (BootWatch::LaunchApp { serial, package }, WatchEvent::Done) => BootWatch::Report {
                serial,
                outcome: AutoLaunch::Launch(package),
            },
            (BootWatch::Report { serial, outcome }, WatchEvent::Done) => BootWatch::CheckDisplay {
                serial,
            },
            (BootWatch::CheckDisplay { serial }, WatchEvent::ScrcpyFound(true)) => BootWatch::StartDisplay {
                serial,
            },
            (BootWatch::CheckDisplay { serial }, WatchEvent::ScrcpyFound(false)) => BootWatch::NoDisplay {
                serial,
            },
            (BootWatch::StartDisplay { serial }, WatchEvent::Started(true)) => BootWatch::DisplayUp {
                serial,
            },
            (BootWatch::StartDisplay { serial }, WatchEvent::Started(false)) => BootWatch::Running {
                serial,
            },
            (BootWatch::DisplayUp { serial }, WatchEvent::Done) => BootWatch::Running { serial },
            (BootWatch::NoDisplay { serial }, WatchEvent::Done) => BootWatch::Running { serial },
            (s, _) => s,
        }
    }

    /// What to do in this state.
    pub fn next_action(&self) -> (r: WatchAction)
        ensures
            self is FindDevice <==> r is PollDevice,
            self is DeviceWait ==> r == WatchAction::Sleep(1),
            self is BootWait ==> r == WatchAction::Sleep(2),
            self matches BootWatch::DeviceFound { serial } ==> r == WatchAction::Announce(*serial),
            self matches BootWatch::AwaitBoot { serial, .. } ==> r == WatchAction::PollBoot(*serial),
            self is Booted ==> (r matches WatchAction::Log(m) && m@ == "✅ Boot complete."@),
            self matches BootWatch::Kiosk { serial } ==> r == WatchAction::ApplyKiosk(*serial),
            self is ReadTarget <==> r is ReadTarget,
            self matches BootWatch::CheckApp { serial, package } ==> r == WatchAction::CheckInstalled(
                *serial,
                *package,
            ),
            self matches BootWatch::LaunchApp { serial, package } ==> r == WatchAction::Launch(
                *serial,
                *package,
            ),
            self matches BootWatch::Report { outcome, .. } ==> (r matches WatchAction::Log(m) && m@
                == auto_launch_text(outcome)),
            self is CheckDisplay <==> r is CheckScrcpy,
            self matches BootWatch::StartDisplay { serial } ==> r == WatchAction::StartScrcpy(*serial),
            self is DisplayUp ==> (r matches WatchAction::Log(m) && m@
                == "🖥️ Real-time display started (scrcpy)."@),
            self is NoDisplay ==> (r matches WatchAction::Log(m) && m@
                == "scrcpy not installed — install it (`brew install scrcpy`) for a clean display window."@),
            self matches BootWatch::Running { serial } ==> r == WatchAction::Ready(*serial),
            self is NoDevice ==> (r matches WatchAction::Fail(m) && m@
                == "No emulator device appeared."@),
            self is BootTimeout ==> (r matches WatchAction::Fail(m) && m@
                == "Boot did not complete in time."@),
    {
        match self {
            BootWatch::FindDevice { .. } => WatchAction::PollDevice,
            BootWatch::DeviceWait { .. } => WatchAction::Sleep(1),
            BootWatch::DeviceFound { serial } => WatchAction::Announce(serial.clone()),
            BootWatch::AwaitBoot { serial, .. } => WatchAction::PollBoot(serial.clone()),
            BootWatch::BootWait { .. } => WatchAction::Sleep(2),
            BootWatch::Booted { .. } => WatchAction::Log("✅ Boot complete.".to_owned()),
            BootWatch::Kiosk { serial } => WatchAction::ApplyKiosk(serial.clone()),
            BootWatch::ReadTarget { .. } => WatchAction::ReadTarget,
            BootWatch::CheckApp { serial, package } => WatchAction::CheckInstalled(
                serial.clone(),
                package.clone(),
            ),
            BootWatch::LaunchApp { serial, package } => WatchAction::Launch(serial.clone(), package.clone()),
            BootWatch::Report { outcome, .. } => WatchAction::Log(auto_launch_message(outcome)),
            BootWatch::CheckDisplay { .. } => WatchAction::CheckScrcpy,
            BootWatch::StartDisplay { serial } => WatchAction::StartScrcpy(serial.clone()),
            BootWatch::DisplayUp { .. } => WatchAction::Log(
                "🖥️ Real-time display started (scrcpy).".to_owned(),
            ),
            BootWatch::NoDisplay { .. } => WatchAction::Log(
                "scrcpy not installed — install it (`brew install scrcpy`) for a clean display window.".to_owned(),
            ),
            BootWatch::Running { serial } => WatchAction::Ready(serial.clone()),
            BootWatch::NoDevice => WatchAction::Fail("No emulator device appeared.".to_owned()),
            BootWatch::BootTimeout => WatchAction::Fail("Boot did not complete in time.".to_owned()),
        }
    }

    /// Take the driver's report.
    pub fn advance(self, e: WatchEvent) -> (r: BootWatch)
        requires
            self.wf(),
        ensures
            r == self.advance_spec(e),
            r.wf(),
    {
        match (self, e) {
            (BootWatch::FindDevice { polls }, WatchEvent::Device(Some(s))) => BootWatch::DeviceFound {
                serial: s,
            },
            (BootWatch::FindDevice { polls }, WatchEvent::Device(None)) => BootWatch::DeviceWait {
                polls: polls + 1,
            },
            (BootWatch::DeviceWait { polls }, WatchEvent::Slept) => if polls < DEVICE_POLLS {
                BootWatch::FindDevice { polls }
            } else {
                BootWatch::NoDevice
            },
            (BootWatch::DeviceFound { serial }, WatchEvent::Done) => BootWatch::AwaitBoot {
                serial,
                polls: 0,
            },
            (BootWatch::AwaitBoot { serial, polls }, WatchEvent::Boot(true)) => BootWatch::Booted {
                serial,
            },
            (BootWatch::AwaitBoot { serial, polls }, WatchEvent::Boot(false)) => BootWatch::BootWait {
                serial,
                polls: polls + 1,
            },
            (BootWatch::BootWait { serial, polls }, WatchEvent::Slept) => if polls < BOOT_POLLS {
                BootWatch::AwaitBoot { serial, polls }
            } else {
                BootWatch::BootTimeout
            },
            (BootWatch::Booted { serial }, WatchEvent::Done) => BootWatch::Kiosk { serial },
            (BootWatch::Kiosk { serial }, WatchEvent::Done) => BootWatch::ReadTarget { serial },
            (BootWatch::ReadTarget { serial }, WatchEvent::Target(Some(package))) => BootWatch::CheckApp {
                serial,
                package,
            },
            (BootWatch::ReadTarget { serial }, WatchEvent::Target(None)) => BootWatch::Report {
                serial,
                outcome: AutoLaunch::NoTarget,
            },
            (BootWatch::CheckApp { serial, package }, WatchEvent::Installed(true)) => BootWatch::LaunchApp {
                serial,
                package,
            },
            (BootWatch::CheckApp { serial, package }, WatchEvent::Installed(false)) => BootWatch::Report {
                serial,
                outcome: AutoLaunch::NotInstalled(package),
            },
            (BootWatch::LaunchApp { serial, package }, WatchEvent::Done) => BootWatch::Report {
                serial,
                outcome: AutoLaunch::Launch(package),
            },
            (BootWatch::Report { serial, outcome }, WatchEvent::Done) => BootWatch::CheckDisplay {
                serial,
            },
            (BootWatch::CheckDisplay { serial }, WatchEvent::ScrcpyFound(true)) => BootWatch::StartDisplay {
                serial,
            },
            (BootWatch::CheckDisplay { serial }, WatchEvent::ScrcpyFound(false)) => BootWatch::NoDisplay {
                serial,
            },
            (BootWatch::StartDisplay { serial }, WatchEvent::Started(true)) => BootWatch::DisplayUp {
                serial,
            },
            (BootWatch::StartDisplay { serial }, WatchEvent::Started(false)) => BootWatch::Running {
                serial,
            },
            (BootWatch::DisplayUp { serial }, WatchEvent::Done) => BootWatch::Running { serial },
            (BootWatch::NoDisplay { serial }, WatchEvent::Done) => BootWatch::Running { serial },
            (s, _) => s,
        }
    }
}

/// Every answered step of the boot watch keeps the poll counters within
/// their limits and brings the watch closer to its end, so the watch ends
/// after at most `steps_left` steps: at most 60 device polls and 90 boot
/// checks.
pub proof fn lemma_watch_progress(s: BootWatch, e: WatchEvent)
    requires
        s.wf(),
        !s.is_final(),
        s.expects(e),
    ensures
        s.advance_spec(e).wf(),
        s.advance_spec(e).steps_left() < s.steps_left(),
{
}

/// The watch starts well-formed, and a state with no steps left is final.
pub proof fn lemma_watch_start_and_end(s: BootWatch)
    requires
        s.wf(),
    ensures
        (BootWatch::FindDevice { polls: 0 }).wf(),
        (BootWatch::FindDevice { polls: 0 }).steps_left() == 312,
        s.steps_left() == 0 ==> s.is_final(),
{
}

/// The auto-launch target is launched only after the device said it is
/// installed, and scrcpy is started only after it was found installed.
pub proof fn lemma_watch_launch_and_display_guarded(s: BootWatch, e: WatchEvent)
    ensures
        s.advance_spec(e) matches BootWatch::LaunchApp { serial, package } ==> (!(s is LaunchApp)
            ==> s == (BootWatch::CheckApp { serial, package }) && e == WatchEvent::Installed(true)),
        (s.advance_spec(e) is StartDisplay && !(s is StartDisplay)) ==> s is CheckDisplay && e
            == WatchEvent::ScrcpyFound(true),
{
}

/// Once booted, the device gets the kiosk settings first, then the
/// auto-launch is settled, then the display: the state that takes a report
/// to each of these phases is the one just before it.
pub proof fn lemma_watch_post_boot_order(s: BootWatch, e: WatchEvent)
    ensures
        (s.advance_spec(e) is Kiosk && !(s is Kiosk)) ==> s is Booted,
        (s.advance_spec(e) is ReadTarget && !(s is ReadTarget)) ==> s is Kiosk,
        (s.advance_spec(e) is CheckDisplay && !(s is CheckDisplay)) ==> s is Report,
        (s.advance_spec(e) is Report && !(s is Report)) ==> (s is ReadTarget || s is CheckApp
            || s is LaunchApp),
        (s.advance_spec(e) is Running && !(s is Running)) ==> (s is StartDisplay || s is DisplayUp
            || s is NoDisplay),
{
}

/// How the auto-launch went once the device booted.
pub enum AutoLaunch {
    /// This installed package was launched.
    Launch(String),
    /// This package is set but not installed.
    NotInstalled(String),
    /// No package is set.
    NoTarget,
}

/// The log line for an auto-launch outcome.
pub open spec fn auto_launch_text(a: &AutoLaunch) -> Seq<char> {
    match a {
        AutoLaunch::Launch(p) => "Launched "@ + p@ + "."@,
        AutoLaunch::NotInstalled(p) => "App "@ + p@ + " not installed (install via Play Store or sideload)."@,
        AutoLaunch::NoTarget => "No auto-launch app set — emulator is up; pick one in Advanced if you want."@,
    }
}

/// The log line of a launch request: the target it launches, or that none
/// is set.
pub fn launch_app_message(target: &Option<String>) -> (r: String)
    ensures
        target matches Some(p) ==> r@ == "Launched "@ + p@ + "."@,
        target is None ==> r@ == "No app selected to launch."@,
{
    match target {
        Some(p) => {
            let mut s = "Launched ".to_owned();
            s.append(p.as_str());
            s.append(".");
            s
        },
        None => "No app selected to launch.".to_owned(),
    }
}

impl Session {
    /// How a launch request is carried out: the package to launch on the
    /// driven device (the target, when one is set) and the log line.
    pub fn launch_request(&self) -> (r: (Option<String>, String))
        ensures
            r.0 == self.target_package,
            self.target_package matches Some(p) ==> r.1@ == "Launched "@ + p@ + "."@,
            self.target_package is None ==> r.1@ == "No app selected to launch."@,
    {
        let message = launch_app_message(&self.target_package);
        (self.target_package.clone(), message)
    }
}

/// The log line for an auto-launch outcome.
pub fn auto_launch_message(a: &AutoLaunch) -> (r: String)
    ensures
        r@ == auto_launch_text(a),
{
    match a {
        AutoLaunch::Launch(p) => {
            let mut s = "Launched ".to_owned();
            s.append(p.as_str());
            s.append(".");
            s
        },
        AutoLaunch::NotInstalled(p) => {
            let mut s = "App ".to_owned();
            s.append(p.as_str());
            s.append(" not installed (install via Play Store or sideload).");
            s
        },
        AutoLaunch::NoTarget => "No auto-launch app set — emulator is up; pick one in Advanced if you want.".to_owned(),
    }
}

} // verus!
