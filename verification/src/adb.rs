//! adb operations, scoped to the emulator the host controls: the command line
//! of each operation and the reading of what adb prints.

use vstd::prelude::*;

use crate::proc::Output;
use crate::text::{
    lines, remove_all, remove_all_str, split_lines, split_words, starts_with_str, str_eq, trim,
    trim_str, words,
};

verus! {

/// `-s <serial>` when a device is named, then `args`.
pub open spec fn base_spec(serial: Option<Seq<char>>, args: Seq<Seq<char>>) -> Seq<Seq<char>> {
    match serial {
        Some(s) => seq!["-s"@, s] + args,
        None => args,
    }
}

/// The lines of `adb devices` output after the header line.
pub open spec fn after_header(ls: Seq<Seq<char>>) -> Seq<Seq<char>> {
    if ls.len() > 0 {
        ls.drop_first()
    } else {
        ls
    }
}

/// `(serial, state)` of each listed line that has at least two words.
pub open spec fn device_pairs(ls: Seq<Seq<char>>) -> Seq<(Seq<char>, Seq<char>)>
    decreases ls.len(),
{
    if ls.len() == 0 {
        seq![]
    } else {
        let rest = device_pairs(ls.drop_last());
        let w = words(ls.last());
        if w.len() >= 2 {
            rest.push((w[0], w[1]))
        } else {
            rest
        }
    }
}

/// The devices listed by `adb devices`.
pub open spec fn devices_spec(stdout: Seq<char>) -> Seq<(Seq<char>, Seq<char>)> {
    device_pairs(after_header(lines(stdout)))
}

/// An emulator (serial `emulator-…`) that is online (state `device`).
pub open spec fn is_online_emulator(d: (Seq<char>, Seq<char>)) -> bool {
    "emulator-"@.is_prefix_of(d.0) && d.1 == "device"@
}

/// The serial of the first online emulator in `devs`.
pub open spec fn first_online(devs: Seq<(Seq<char>, Seq<char>)>) -> Option<Seq<char>>
    decreases devs.len(),
{
    if devs.len() == 0 {
        None
    } else if is_online_emulator(devs[0]) {
        Some(devs[0].0)
    } else {
        first_online(devs.drop_first())
    }
}

/// Package names from `pm list packages` lines: `package:` removed, trimmed,
/// empty ones dropped.
pub open spec fn package_names(ls: Seq<Seq<char>>) -> Seq<Seq<char>>
    decreases ls.len(),
{
    if ls.len() == 0 {
        seq![]
    } else {
        let rest = package_names(ls.drop_last());
        let p = trim(remove_all(ls.last(), "package:"@));
        if p.len() > 0 {
            rest.push(p)
        } else {
            rest
        }
    }
}

/// Third-party packages listed by `pm list packages -3`.
pub open spec fn user_packages_spec(stdout: Seq<char>) -> Seq<Seq<char>> {
    package_names(lines(stdout))
}

/// The kiosk settings, one adb command line each (before `-s`): screen never
/// times out, stay awake, no screensaver, no sleep, no lock screen.
pub open spec fn kiosk_commands_spec() -> Seq<Seq<Seq<char>>> {
    seq![
        seq!["shell"@, "settings"@, "put"@, "system"@, "screen_off_timeout"@, "2147483647"@],
        seq!["shell"@, "svc"@, "power"@, "stayon"@, "true"@],
        seq!["shell"@, "settings"@, "put"@, "secure"@, "screensaver_enabled"@, "0"@],
        seq!["shell"@, "settings"@, "put"@, "secure"@, "sleep_timeout"@, "-1"@],
        seq!["shell"@, "locksettings"@, "set-disabled"@, "true"@],
    ]
}

/// Every listed package name is non-empty and has no surrounding
/// whitespace.
pub proof fn lemma_package_names_trimmed(ls: Seq<Seq<char>>)
    ensures
        forall|i: int|
            0 <= i < package_names(ls).len() ==> #[trigger] package_names(ls)[i].len() > 0 && trim(
                package_names(ls)[i],
            ) == package_names(ls)[i],
    decreases ls.len(),
{
    if ls.len() > 0 {
        lemma_package_names_trimmed(ls.drop_last());
        let x = remove_all(ls.last(), "package:"@);
        crate::text::lemma_trim_idempotent(x);
        let rest = package_names(ls.drop_last());
        let all = package_names(ls);
        assert forall|i: int| 0 <= i < all.len() implies #[trigger] all[i].len() > 0 && trim(all[i])
            == all[i] by {
            if i < rest.len() {
                assert(all[i] == rest[i]);
            } else {
                assert(all[i] == trim(x));
            }
        }
    }
}

/// The emulator picked from adb's device list is listed there as an online
/// emulator, and no online emulator is listed before it.
pub proof fn lemma_first_online_sound(devs: Seq<(Seq<char>, Seq<char>)>)
    ensures
        first_online(devs) matches Some(s) ==> exists|i: int|
            0 <= i < devs.len() && devs[i].0 == s && is_online_emulator(#[trigger] devs[i])
                && forall|j: int| 0 <= j < i ==> !is_online_emulator(#[trigger] devs[j]),
        first_online(devs) is None ==> forall|j: int|
            0 <= j < devs.len() ==> !is_online_emulator(#[trigger] devs[j]),
    decreases devs.len(),
{
    if devs.len() > 0 {
        lemma_first_online_sound(devs.drop_first());
        if is_online_emulator(devs[0]) {
            assert(devs[0].0 == first_online(devs)->0);
        } else {
            match first_online(devs.drop_first()) {
                Some(s) => {
                    let i = choose|i: int|
                        0 <= i < devs.drop_first().len() && devs.drop_first()[i].0 == s
                            && is_online_emulator(#[trigger] devs.drop_first()[i]) && forall|j: int|
                            0 <= j < i ==> !is_online_emulator(#[trigger] devs.drop_first()[j]);
                    assert(devs[i + 1] == devs.drop_first()[i]);
                    assert forall|j: int| 0 <= j < i + 1 implies !is_online_emulator(
                        #[trigger] devs[j],
                    ) by {
                        if j > 0 {
                            assert(devs[j] == devs.drop_first()[j - 1]);
                        }
                    }
                },
                None => {
                    assert forall|j: int| 0 <= j < devs.len() implies !is_online_emulator(
                        #[trigger] devs[j],
                    ) by {
                        if j > 0 {
                            assert(devs[j] == devs.drop_first()[j - 1]);
                        }
                    }
                },
            }
        }
    }
}

/// The words of a command line, as owned strings.
fn owned(args: &[&str]) -> (r: Vec<String>)
    ensures
        r.deep_view() == args@.map_values(|a: &str| a@),
{
    let mut r: Vec<String> = Vec::new();
    let mut i: usize = 0;
    while i < args.len()
        invariant
            i <= args@.len(),
            r.deep_view() == args@.take(i as int).map_values(|a: &str| a@),
        decreases args@.len() - i,
    {
        let ghost before = r.deep_view();
        r.push(args[i].to_owned());
        assert(r.deep_view() =~= before.push(args@[i as int]@));
        assert(args@.take(i + 1).map_values(|a: &str| a@) =~= args@.take(i as int).map_values(
            |a: &str| a@,
        ).push(args@[i as int]@));
        i = i + 1;
    }
    assert(args@.take(args@.len() as int) =~= args@);
    r
}

/// The adb arguments that run `args` on the device `serial` (any device when
/// `None`).
pub fn base(serial: &Option<String>, args: &[&str]) -> (r: Vec<String>)
    ensures
        r.deep_view() == base_spec(serial.deep_view(), args@.map_values(|a: &str| a@)),
{
    let mut v: Vec<String> = Vec::new();
    match serial {
        Some(s) => {
            v.push("-s".to_owned());
            v.push(s.clone());
        },
        None => {},
    }
    let ghost head = v.deep_view();
    let rest = owned(args);
    let mut i: usize = 0;
    while i < rest.len()
        invariant
            i <= rest@.len(),
            v.deep_view() == head + rest.deep_view().take(i as int),
        decreases rest@.len() - i,
    {
        let ghost before = v.deep_view();
        assert(rest.deep_view()[i as int] == rest@[i as int]@);
        v.push(rest[i].clone());
        assert(v.deep_view() =~= before.push(rest.deep_view()[i as int]));
        assert(v.deep_view() =~= head + rest.deep_view().take(i + 1));
        i = i + 1;
    }
    assert(rest.deep_view().take(rest@.len() as int) =~= rest.deep_view());
    assert(v.deep_view() =~= base_spec(serial.deep_view(), args@.map_values(|a: &str| a@)));
    v
}

/// The devices adb lists: `(serial, state)` for each line after the header
/// that has at least two whitespace-separated words.
pub fn devices(out: &Output) -> (r: Vec<(String, String)>)
    ensures
        r.deep_view() == devices_spec(out.stdout@),
{
    let ls = split_lines(out.stdout.as_str());
    let ghost rest = after_header(ls.deep_view());
    let mut r: Vec<(String, String)> = Vec::new();
    let n = ls.len();
    let mut i: usize = if n > 0 { 1 } else { 0 };
    assert(rest.take(0) =~= Seq::<Seq<char>>::empty());
    while i < n
        invariant
            n == ls@.len(),
            n > 0 ==> 1 <= i,
            i <= n,
            rest == after_header(ls.deep_view()),
            n > 0 ==> r.deep_view() == device_pairs(rest.take(i - 1)),
            n == 0 ==> r.deep_view() == Seq::<(Seq<char>, Seq<char>)>::empty(),
        decreases n - i,
    {
        let w = split_words(ls[i].as_str());
        let ghost k = i - 1;
        assert(rest[k] == ls.deep_view()[i as int]);
        assert(rest.take(k + 1).drop_last() =~= rest.take(k));
        assert(rest.take(k + 1).last() == rest[k]);
        if w.len() >= 2 {
            let ghost before = r.deep_view();
            r.push((w[0].clone(), w[1].clone()));
            assert(r.deep_view() =~= before.push((w.deep_view()[0], w.deep_view()[1])));
        }
        i = i + 1;
    }
    if n > 0 {
        assert(rest.take(n - 1) =~= rest);
    } else {
        assert(rest =~= Seq::<Seq<char>>::empty());
    }
    r
}

/// The serial of the first online emulator in adb's device list.
pub fn online_emulator(out: &Output) -> (r: Option<String>)
    ensures
        r.deep_view() == first_online(devices_spec(out.stdout@)),
{
    let devs = devices(out);
    let ghost dv = devs.deep_view();
    let n = devs.len();
    let mut i: usize = 0;
    assert(dv.skip(0) =~= dv);
    while i < n
        invariant
            n == devs@.len(),
            i <= n,
            dv == devs.deep_view(),
            dv == devices_spec(out.stdout@),
            first_online(dv) == first_online(dv.skip(i as int)),
        decreases n - i,
    {
        assert(dv.skip(i as int)[0] == dv[i as int]);
        assert(dv.skip(i as int).drop_first() =~= dv.skip(i + 1));
        assert(dv[i as int] == (devs@[i as int].0@, devs@[i as int].1@));
        if starts_with_str(devs[i].0.as_str(), "emulator-") && str_eq(devs[i].1.as_str(), "device") {
            let r = Some(devs[i].0.clone());
            assert(is_online_emulator(dv[i as int]));
            assert(r.deep_view() == first_online(dv.skip(i as int)));
            return r;
        }
        i = i + 1;
    }
    None
}

/// adb arguments that read whether the device finished booting.
pub fn boot_completed_args(serial: &Option<String>) -> (r: Vec<String>)
    ensures
        r.deep_view() == base_spec(
            serial.deep_view(),
            seq!["shell"@, "getprop"@, "sys.boot_completed"@],
        ),
{
    let r = base(serial, &["shell", "getprop", "sys.boot_completed"]);
    assert(seq!["shell", "getprop", "sys.boot_completed"].map_values(|a: &str| a@) =~= seq![
        "shell"@,
        "getprop"@,
        "sys.boot_completed"@,
    ]);
    r
}

/// The device finished booting: `getprop sys.boot_completed` printed `1`.
pub fn boot_completed(out: &Output) -> (r: bool)
    ensures
        r == (trim(out.stdout@) == "1"@),
{
    let t = trim_str(out.stdout.as_str());
    str_eq(t.as_str(), "1")
}

/// adb arguments that list the third-party packages.
pub fn user_packages_args(serial: &Option<String>) -> (r: Vec<String>)
    ensures
        r.deep_view() == base_spec(
            serial.deep_view(),
            seq!["shell"@, "pm"@, "list"@, "packages"@, "-3"@],
        ),
{
    let r = base(serial, &["shell", "pm", "list", "packages", "-3"]);
    assert(seq!["shell", "pm", "list", "packages", "-3"].map_values(|a: &str| a@) =~= seq![
        "shell"@,
        "pm"@,
        "list"@,
        "packages"@,
        "-3"@,
    ]);
    r
}

/// The third-party packages in `pm list packages -3` output: each line with
/// `package:` removed and trimmed, empty ones dropped.
pub fn user_packages(out: &Output) -> (r: Vec<String>)
    ensures
        r.deep_view() == user_packages_spec(out.stdout@),
{
    let ls = split_lines(out.stdout.as_str());
    let ghost lv = ls.deep_view();
    let mut r: Vec<String> = Vec::new();
    let n = ls.len();
    let mut i: usize = 0;
    assert(lv.take(0) =~= Seq::<Seq<char>>::empty());
    while i < n
        invariant
            n == ls@.len(),
            i <= n,
            lv == ls.deep_view(),
            r.deep_view() == package_names(lv.take(i as int)),
        decreases n - i,
    {
        let stripped = remove_all_str(ls[i].as_str(), "package:");
        let p = trim_str(stripped.as_str());
        assert(lv.take(i + 1).drop_last() =~= lv.take(i as int));
        assert(lv.take(i + 1).last() == lv[i as int]);
        if p.unicode_len() > 0 {
            let ghost before = r.deep_view();
            r.push(p);
            assert(r.deep_view() =~= before.push(trim(remove_all(lv[i as int], "package:"@))));
        }
        i = i + 1;
    }
    assert(lv.take(n as int) =~= lv);
    r
}

/// `package` is one of the third-party packages listed in `out`.
pub fn is_installed(out: &Output, package: &str) -> (r: bool)
    ensures
        r == user_packages_spec(out.stdout@).contains(package@),
{
    let pkgs = user_packages(out);
    let ghost pv = pkgs.deep_view();
    let n = pkgs.len();
    let mut i: usize = 0;
    while i < n
        invariant
            n == pkgs@.len(),
            i <= n,
            pv == pkgs.deep_view(),
            pv == user_packages_spec(out.stdout@),
            forall|k: int| 0 <= k < i ==> pv[k] != package@,
        decreases n - i,
    {
        if str_eq(pkgs[i].as_str(), package) {
            assert(pv[i as int] == package@);
            assert(pv.contains(package@));
            return true;
        }
        i = i + 1;
    }
    false
}

/// adb arguments that launch `package`'s launcher activity.
pub fn launch(serial: &Option<String>, package: &str) -> (r: Vec<String>)
    ensures
        r.deep_view() == base_spec(
            serial.deep_view(),
            seq![
                "shell"@,
                "monkey"@,
                "-p"@,
                package@,
                "-c"@,
                "android.intent.category.LAUNCHER"@,
                "1"@,
            ],
        ),
{
    let r = base(serial, &["shell", "monkey", "-p", package, "-c", "android.intent.category.LAUNCHER", "1"]);
    assert(seq!["shell", "monkey", "-p", package, "-c", "android.intent.category.LAUNCHER", "1"].map_values(
        |a: &str| a@,
    ) =~= seq![
        "shell"@,
        "monkey"@,
        "-p"@,
        package@,
        "-c"@,
        "android.intent.category.LAUNCHER"@,
        "1"@,
    ]);
    r
}

/// The adb command lines that harden the device for kiosk use, in order.
pub fn apply_kiosk(serial: &Option<String>) -> (r: Vec<Vec<String>>)
    ensures
        r@.len() == kiosk_commands_spec().len(),
        forall|i: int|
            0 <= i < r@.len() ==> #[trigger] r@[i].deep_view() == base_spec(
                serial.deep_view(),
                kiosk_commands_spec()[i],
            ),
{
    let mut r: Vec<Vec<String>> = Vec::new();
    let c0 = base(serial, &["shell", "settings", "put", "system", "screen_off_timeout", "2147483647"]);
    assert(seq!["shell", "settings", "put", "system", "screen_off_timeout", "2147483647"].map_values(
        |a: &str| a@,
    ) =~= kiosk_commands_spec()[0]);
    r.push(c0);
    let c1 = base(serial, &["shell", "svc", "power", "stayon", "true"]);
    assert(seq!["shell", "svc", "power", "stayon", "true"].map_values(|a: &str| a@)
        =~= kiosk_commands_spec()[1]);
    r.push(c1);
    let c2 = base(serial, &["shell", "settings", "put", "secure", "screensaver_enabled", "0"]);
    assert(seq!["shell", "settings", "put", "secure", "screensaver_enabled", "0"].map_values(
        |a: &str| a@,
    ) =~= kiosk_commands_spec()[2]);
    r.push(c2);
    let c3 = base(serial, &["shell", "settings", "put", "secure", "sleep_timeout", "-1"]);
    assert(seq!["shell", "settings", "put", "secure", "sleep_timeout", "-1"].map_values(
        |a: &str| a@,
    ) =~= kiosk_commands_spec()[3]);
    r.push(c3);
    let c4 = base(serial, &["shell", "locksettings", "set-disabled", "true"]);
    assert(seq!["shell", "locksettings", "set-disabled", "true"].map_values(|a: &str| a@)
        =~= kiosk_commands_spec()[4]);
    r.push(c4);
    r
}

/// adb arguments that shut the emulator down.
pub fn kill_emulator(serial: &Option<String>) -> (r: Vec<String>)
    ensures
        r.deep_view() == base_spec(serial.deep_view(), seq!["emu"@, "kill"@]),
{
    let r = base(serial, &["emu", "kill"]);
    assert(seq!["emu", "kill"].map_values(|a: &str| a@) =~= seq!["emu"@, "kill"@]);
    r
}

} // verus!
