//! Real-time display via scrcpy: where the binary is, and how it is started
//! against the emulator.

use vstd::prelude::*;

use crate::host::{HostEnv, HostOs};
use crate::paths::{first_existing, first_present, join_path, parent_path, path_join, path_parent, pick_first};
use crate::sdk::{tool_env_spec, AndroidSdk};
use crate::text::{split_char, split_on};

verus! {

/// File name of the scrcpy binary on `os`.
pub open spec fn scrcpy_exe_spec(os: HostOs) -> Seq<char> {
    if os == HostOs::Windows {
        "scrcpy.exe"@
    } else {
        "scrcpy"@
    }
}

/// Where scrcpy is looked for, in order: the Homebrew and `/usr/local`
/// locations, then each entry of `PATH`.
pub open spec fn scrcpy_candidates_spec(os: HostOs, path_var: Option<Seq<char>>) -> Seq<Seq<char>> {
    let fixed = seq!["/opt/homebrew/bin/scrcpy"@, "/usr/local/bin/scrcpy"@];
    match path_var {
        Some(p) => fixed + split_on(p, os.path_list_sep_spec()).map_values(
            |d: Seq<char>| path_join(d, scrcpy_exe_spec(os)),
        ),
        None => fixed,
    }
}

/// scrcpy arguments: a titled (draggable) window that keeps the device
/// awake, without audio or screensaver, bound to `serial` when one is known.
pub open spec fn scrcpy_args_spec(serial: Option<Seq<char>>) -> Seq<Seq<char>> {
    let common = seq![
        "--window-title=Andremul KDS Display"@,
        "--stay-awake"@,
        "--no-audio"@,
        "--disable-screensaver"@,
    ];
    match serial {
        Some(s) => common + seq!["-s"@, s],
        None => common,
    }
}

/// scrcpy's environment: the SDK tool environment, `ADB` pointing at the
/// SDK's adb, and, when the binary has a parent folder, `PATH` with that
/// folder put first.
pub open spec fn scrcpy_env_spec(
    sdk: AndroidSdk,
    java_home: Option<Seq<char>>,
    scrcpy: Seq<char>,
    path_var: Option<Seq<char>>,
) -> Seq<(Seq<char>, Seq<char>)> {
    let env = tool_env_spec(sdk.root@, java_home).push(("ADB"@, sdk.adb_spec()));
    let cur = match path_var {
        Some(p) => p,
        None => Seq::<char>::empty(),
    };
    let sep = if sdk.host == HostOs::Windows {
        ";"@
    } else {
        ":"@
    };
    match path_parent(scrcpy) {
        Some(dir) => env.push(("PATH"@, dir + sep + cur)),
        None => env,
    }
}

/// The places scrcpy is looked for, in order.
pub fn scrcpy_candidates(env: &HostEnv) -> (r: Vec<String>)
    ensures
        r.deep_view() == scrcpy_candidates_spec(env.os, env.path.deep_view()),
{
    let mut r: Vec<String> = Vec::new();
    r.push("/opt/homebrew/bin/scrcpy".to_owned());
    r.push("/usr/local/bin/scrcpy".to_owned());
    let ghost fixed = r.deep_view();
    match &env.path {
        Some(p) => {
            let exe = match env.os {
                HostOs::Windows => "scrcpy.exe",
                _ => "scrcpy",
            };
            let dirs = split_char(p.as_str(), env.os.path_list_separator());
            let ghost dv = dirs.deep_view();
            let ghost f = |d: Seq<char>| path_join(d, scrcpy_exe_spec(env.os));
            let n = dirs.len();
            let mut i: usize = 0;
            assert(r.deep_view() =~= fixed + dv.take(0).map_values(f));
            while i < n
                invariant
                    n == dirs@.len(),
                    i <= n,
                    dv == dirs.deep_view(),
                    exe@ == scrcpy_exe_spec(env.os),
                    f == (|d: Seq<char>| path_join(d, scrcpy_exe_spec(env.os))),
                    r.deep_view() == fixed + dv.take(i as int).map_values(f),
                decreases n - i,
            {
                let c = join_path(dirs[i].as_str(), exe);
                assert(dirs[i as int]@ == dv[i as int]);
                let ghost before = r.deep_view();
                r.push(c);
                assert(r.deep_view() =~= before.push(f(dv[i as int])));
                assert(dv.take(i + 1).map_values(f) =~= dv.take(i as int).map_values(f).push(
                    f(dv[i as int]),
                ));
                i = i + 1;
            }
            assert(dv.take(n as int) =~= dv);
        },
        None => {},
    }
    r
}

/// The first candidate in `cands` that existence answers mark as found.
fn select_first(cands: &Vec<String>, found: &Vec<bool>) -> (r: Option<String>)
    ensures
        r.deep_view() == pick_first(cands.deep_view(), found@),
{
    let ghost cv = cands.deep_view();
    match first_present(found) {
        Some(i) if i < cands.len() => {
            let c = cands[i].clone();
            assert(c@ == cv[i as int]);
            Some(c)
        },
        _ => None,
    }
}

/// The scrcpy binary that existence answers for `scrcpy_candidates` select:
/// the first found, in the order Homebrew, `/usr/local`, then the `PATH`
/// entries; `None` when none is found.
pub fn locate_from(env: &HostEnv, found: &Vec<bool>) -> (r: Option<String>)
    ensures
        r.deep_view() == pick_first(scrcpy_candidates_spec(env.os, env.path.deep_view()), found@),
{
    let cands = scrcpy_candidates(env);
    select_first(&cands, found)
}

/// Locate the scrcpy binary by checking the candidates in order on disk: the
/// selection of `locate_from` over the answers the disk gave.
pub fn locate(env: &HostEnv) -> (r: Option<String>)
    ensures
        exists|found: Seq<bool>|
            found.len() == scrcpy_candidates_spec(env.os, env.path.deep_view()).len()
                && r.deep_view() == pick_first(
                scrcpy_candidates_spec(env.os, env.path.deep_view()),
                found,
            ),
{
    let cands = scrcpy_candidates(env);
    let (_hit, found) = first_existing(&cands);
    select_first(&cands, &found)
}

/// Whether scrcpy is installed where `locate` looks: whether some candidate
/// was found, over the answers the disk gave.
pub fn available(env: &HostEnv) -> (r: bool)
    ensures
        exists|found: Seq<bool>|
            found.len() == scrcpy_candidates_spec(env.os, env.path.deep_view()).len() && r
                == pick_first(scrcpy_candidates_spec(env.os, env.path.deep_view()), found) is Some,
{
    locate(env).is_some()
}

/// scrcpy arguments for the device `serial`.
pub fn scrcpy_args(serial: &Option<String>) -> (r: Vec<String>)
    ensures
        r.deep_view() == scrcpy_args_spec(serial.deep_view()),
{
    let mut a: Vec<String> = Vec::new();
    a.push("--window-title=Andremul KDS Display".to_owned());
    a.push("--stay-awake".to_owned());
    a.push("--no-audio".to_owned());
    a.push("--disable-screensaver".to_owned());
    match serial {
        Some(s) => {
            a.push("-s".to_owned());
            a.push(s.clone());
        },
        None => {},
    }
    assert(a.deep_view() =~= scrcpy_args_spec(serial.deep_view()));
    a
}

/// The environment scrcpy is started with: it finds adb through `ADB`, and
/// its bundled libraries through its own folder first on `PATH`.
pub fn scrcpy_env(sdk: &AndroidSdk, java_home: &Option<String>, scrcpy: &str, path_var: &Option<
    String,
>) -> (r: Vec<(String, String)>)
    ensures
        r.deep_view() == scrcpy_env_spec(*sdk, java_home.deep_view(), scrcpy@, path_var.deep_view()),
{
    let mut env = sdk.tool_env(java_home);
    env.push(("ADB".to_owned(), sdk.adb()));
    let ghost base = env.deep_view();
    match parent_path(scrcpy) {
        Some(dir) => {
            let mut v = dir.clone();
            match sdk.host {
                HostOs::Windows => v.append(";"),
                _ => v.append(":"),
            }
            match path_var {
                Some(p) => v.append(p.as_str()),
                None => {},
            }
            env.push(("PATH".to_owned(), v));
            assert(env.deep_view() =~= base.push(("PATH"@, dir@ + (if sdk.host == HostOs::Windows {
                ";"@
            } else {
                ":"@
            }) + (match path_var.deep_view() {
                Some(p) => p,
                None => Seq::<char>::empty(),
            }))));
        },
        None => {},
    }
    env
}

} // verus!
