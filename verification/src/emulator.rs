//! Emulator launch arguments and the AVD list.

use vstd::prelude::*;

use crate::proc::Output;
use crate::sdk::AndroidSdk;
use crate::text::{lines, split_lines, trim, trim_str};

verus! {

/// AVD names from `emulator -list-avds` lines: trimmed, empty ones dropped.
pub open spec fn avd_names(ls: Seq<Seq<char>>) -> Seq<Seq<char>>
    decreases ls.len(),
{
    if ls.len() == 0 {
        seq![]
    } else {
        let rest = avd_names(ls.drop_last());
        let a = trim(ls.last());
        if a.len() > 0 {
            rest.push(a)
        } else {
            rest
        }
    }
}

/// Every listed AVD name is non-empty and has no surrounding whitespace.
pub proof fn lemma_avd_names_trimmed(ls: Seq<Seq<char>>)
    ensures
        forall|i: int|
            0 <= i < avd_names(ls).len() ==> #[trigger] avd_names(ls)[i].len() > 0 && trim(
                avd_names(ls)[i],
            ) == avd_names(ls)[i],
    decreases ls.len(),
{
    if ls.len() > 0 {
        lemma_avd_names_trimmed(ls.drop_last());
        let x = ls.last();
        crate::text::lemma_trim_idempotent(x);
        let rest = avd_names(ls.drop_last());
        let all = avd_names(ls);
        assert forall|i: int| 0 <= i < all.len() implies #[trigger] all[i].len() > 0 && trim(all[i])
            == all[i] by {
            if i < rest.len() {
                assert(all[i] == rest[i]);
            } else {
                assert(all[i] == trim(x));
            }
        }
    }
}

/// Emulator arguments tuned for an unattended display. Headless runs have no
/// window and render in software; windowed runs let the emulator pick the
/// best host GPU mode.
pub open spec fn launch_args_spec(avd: Seq<char>, headless: bool) -> Seq<Seq<char>> {
    let common = seq![
        "-avd"@,
        avd,
        "-no-snapshot"@,
        "-no-boot-anim"@,
        "-netdelay"@,
        "none"@,
        "-netspeed"@,
        "full"@,
        "-no-audio"@,
    ];
    if headless {
        common + seq!["-no-window"@, "-gpu"@, "swiftshader_indirect"@]
    } else {
        common + seq!["-gpu"@, "auto"@]
    }
}

/// The program and arguments that list the AVDs, or `None` when the emulator
/// is not installed (`emulator_installed`, the answer of `has_emulator`):
/// there is nothing to run then, and the AVD list is empty.
pub fn list_avds_command(sdk: &AndroidSdk, emulator_installed: bool) -> (r: Option<(String, Vec<String>)>)
    ensures
        r is Some <==> emulator_installed,
        r matches Some((program, args)) ==> program@ == sdk.emulator_spec() && args.deep_view()
            == seq!["-list-avds"@],
{
    if !emulator_installed {
        return None;
    }
    let mut args: Vec<String> = Vec::new();
    args.push("-list-avds".to_owned());
    assert(args.deep_view() =~= seq!["-list-avds"@]);
    Some((sdk.emulator(), args))
}

/// The AVDs named in `emulator -list-avds` output.
pub fn list_avds(out: &Output) -> (r: Vec<String>)
    ensures
        r.deep_view() == avd_names(lines(out.stdout@)),
{
    let ls = split_lines(out.stdout.as_str());
    let ghost lv = ls.deep_view();
    let mut r: Vec<String> = Vec::new();
    let n = ls.len();
    let mut i: usize = 0;
    assert(lv.take(0) =~= Seq::<Seq<char>>::empty());
    while i < n
        invariant
            n == ls@.len(),
            i <= n,
            lv == ls.deep_view(),
            r.deep_view() == avd_names(lv.take(i as int)),
        decreases n - i,
    {
        let a = trim_str(ls[i].as_str());
        assert(lv.take(i + 1).drop_last() =~= lv.take(i as int));
        assert(lv.take(i + 1).last() == lv[i as int]);
        if a.unicode_len() > 0 {
            let ghost before = r.deep_view();
            r.push(a);
            assert(r.deep_view() =~= before.push(trim(lv[i as int])));
        }
        i = i + 1;
    }
    assert(lv.take(n as int) =~= lv);
    r
}

/// Emulator arguments for booting `avd`, headless or windowed.
pub fn launch_args(avd: &str, headless: bool) -> (r: Vec<String>)
    ensures
        r.deep_view() == launch_args_spec(avd@, headless),
{
    let mut a: Vec<String> = Vec::new();
    a.push("-avd".to_owned());
    a.push(avd.to_owned());
    a.push("-no-snapshot".to_owned());
    a.push("-no-boot-anim".to_owned());
    a.push("-netdelay".to_owned());
    a.push("none".to_owned());
    a.push("-netspeed".to_owned());
    a.push("full".to_owned());
    a.push("-no-audio".to_owned());
    if headless {
        a.push("-no-window".to_owned());
        a.push("-gpu".to_owned());
        a.push("swiftshader_indirect".to_owned());
    } else {
        a.push("-gpu".to_owned());
        a.push("auto".to_owned());
    }
    assert(a.deep_view() =~= launch_args_spec(avd@, headless));
    a
}

} // verus!
