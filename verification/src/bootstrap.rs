//! The decisions and names behind the in-app "Set up Android" bootstrap:
//! which command-line tools build to fetch, where downloads and unpacked
//! archives go, the SDK packages and AVD to create, the AVD settings, and
//! download progress lines.

use vstd::prelude::*;

use crate::host::{google_os, google_os_spec, system_image, system_image_spec, HostArch, HostOs};
use crate::paths::{join_path, path_join};
use crate::text::{
    chars_of, contains_seq, contains_str, decimal, find_chars, find_from, leading_number,
    leading_u64, str_eq, to_decimal, lemma_find_from,
};

verus! {

/// The larger of two numbers.
pub open spec fn max_nat(a: nat, b: nat) -> nat {
    if a >= b {
        a
    } else {
        b
    }
}

/// A parsed build number, or 0 when the digits did not parse.
pub open spec fn number_or_zero(n: Option<nat>) -> nat {
    match n {
        Some(v) => v,
        None => 0,
    }
}

/// The largest build number written right after an occurrence of `needle`
/// at or after `idx` (each search resumes just after the previous needle), or
/// 0 when there is none.
pub open spec fn best_build_from(s: Seq<char>, needle: Seq<char>, idx: int) -> nat
    decreases s.len() + 1 - idx,
{
    if needle.len() == 0 || idx < 0 {
        0
    } else {
        match find_from(s, needle, idx) {
            None => 0,
            Some(k) => {
                proof {
                    lemma_find_from(s, needle, idx);
                }
                let start = k + needle.len();
                max_nat(
                    number_or_zero(leading_number(s.skip(start))),
                    best_build_from(s, needle, start),
                )
            },
        }
    }
}

/// The name prefix of the command-line tools archives for `os`.
pub open spec fn clt_needle_spec(os: HostOs) -> Seq<char> {
    "commandlinetools-"@ + google_os_spec(os) + "-"@
}

/// The download URL of command-line tools build `build` for `os`.
pub open spec fn clt_url_spec(os: HostOs, build: nat) -> Seq<char> {
    "https://dl.google.com/android/repository/commandlinetools-"@ + google_os_spec(os) + "-"@
        + decimal(build) + "_latest.zip"@
}

/// The newest command-line tools build for `os` named in Google's
/// repository index `xml`, or 0 when none is named.
pub fn best_clt_build(xml: &str, os: HostOs) -> (r: u64)
    ensures
        r == best_build_from(xml@, clt_needle_spec(os), 0),
{
    let mut needle = "commandlinetools-".to_owned();
    needle.append(google_os(os));
    needle.append("-");
    let cs = chars_of(xml);
    let ns = chars_of(needle.as_str());
    proof {
        reveal_strlit("commandlinetools-");
        reveal_strlit("-");
    }
    assert(ns@.len() > 0);
    let mut best: u64 = 0;
    let mut idx: usize = 0;
    while idx <= cs.len()
        invariant
            cs@ == xml@,
            ns@ == clt_needle_spec(os),
            ns@.len() > 0,
            best_build_from(xml@, ns@, 0) == max_nat(best as nat, best_build_from(xml@, ns@, idx as int)),
        decreases cs@.len() + 1 - idx,
    {
        match find_chars(&cs, &ns, idx) {
            None => {
                return best;
            },
            Some(pos) => {
                proof {
                    lemma_find_from(cs@, ns@, idx as int);
                }
                let start = pos + ns.len();
                let n = leading_u64(&cs, start);
                match n {
                    Some(v) => {
                        if v > best {
                            best = v;
                        }
                    },
                    None => {},
                }
                idx = start;
            },
        }
    }
    best
}

/// The URL of the newest command-line tools for `os` named in `xml`, or the
/// error the setup reports when the index names none.
pub fn discover_clt_url(xml: &str, os: HostOs) -> (r: Result<String, String>)
    ensures
        best_build_from(xml@, clt_needle_spec(os), 0) == 0 ==> (r matches Err(e) && e@
            == "could not find command-line tools download URL"@),
        best_build_from(xml@, clt_needle_spec(os), 0) > 0 ==> (r matches Ok(u) && u@
            == clt_url_spec(os, best_build_from(xml@, clt_needle_spec(os), 0))),
{
    let best = best_clt_build(xml, os);
    if best == 0 {
        return Err("could not find command-line tools download URL".to_owned());
    }
    let mut u = "https://dl.google.com/android/repository/commandlinetools-".to_owned();
    u.append(google_os(os));
    u.append("-");
    let b = to_decimal(best);
    u.append(b.as_str());
    u.append("_latest.zip");
    Ok(u)
}


/// `s` with the line `key=value` appended unless some `key=` is already in it.
pub open spec fn add_setting(s: Seq<char>, key: Seq<char>, value: Seq<char>) -> Seq<char> {
    if contains_seq(s, key + "="@) {
        s
    } else {
        s + "\n"@ + key + "="@ + value
    }
}

/// The AVD `config.ini` with the kiosk display settings added where absent:
/// landscape orientation, no device frame, hardware keyboard.
pub open spec fn tweak_avd_config_spec(s: Seq<char>) -> Seq<char> {
    add_setting(
        add_setting(add_setting(s, "hw.initialOrientation"@, "landscape"@), "showDeviceFrame"@, "no"@),
        "hw.keyboard"@,
        "yes"@,
    )
}

fn add_setting_exec(s: String, key: &str, value: &str) -> (r: String)
    ensures
        r@ == add_setting(s@, key@, value@),
{
    let mut pat = key.to_owned();
    pat.append("=");
    if contains_str(s.as_str(), pat.as_str()) {
        s
    } else {
        let mut t = s;
        t.append("\n");
        t.append(key);
        t.append("=");
        t.append(value);
        t
    }
}

/// The AVD configuration with the kiosk display settings added.
pub fn tweak_avd_config(config: &str) -> (r: String)
    ensures
        r@ == tweak_avd_config_spec(config@),
{
    let s = config.to_owned();
    let s = add_setting_exec(s, "hw.initialOrientation", "landscape");
    let s = add_setting_exec(s, "showDeviceFrame", "no");
    add_setting_exec(s, "hw.keyboard", "yes")
}

/// Text that contains `p` still contains it with more text appended.
pub proof fn lemma_contains_append(s: Seq<char>, t: Seq<char>, p: Seq<char>)
    requires
        contains_seq(s, p),
    ensures
        contains_seq(s + t, p),
{
    let i = choose|i: int| crate::text::occurs_at(s, p, i);
    assert((s + t).subrange(i, i + p.len()) =~= s.subrange(i, i + p.len()));
    assert(crate::text::occurs_at(s + t, p, i));
}

/// After `add_setting`, the key is set, and whatever was contained before
/// still is.
pub proof fn lemma_add_setting(s: Seq<char>, key: Seq<char>, value: Seq<char>, p: Seq<char>)
    ensures
        contains_seq(add_setting(s, key, value), key + "="@),
        contains_seq(s, p) ==> contains_seq(add_setting(s, key, value), p),
{
    if !contains_seq(s, key + "="@) {
        let t = s + "\n"@ + key + "="@ + value;
        let i: int = s.len() as int + 1;
        let k = key + "="@;
        assert(t =~= (s + "\n"@) + k + value);
        assert(("\n"@).len() == 1) by {
            reveal_strlit("\n");
        }
        assert(t.subrange(i, i + k.len()) =~= k);
        assert(crate::text::occurs_at(t, k, i));
        if contains_seq(s, p) {
            lemma_contains_append(s, "\n"@ + key + "="@ + value, p);
            assert(s + ("\n"@ + key + "="@ + value) =~= t);
        }
    }
}

/// Every kiosk setting key is present after the tweak.
pub proof fn lemma_tweak_sets_all(s: Seq<char>)
    ensures
        contains_seq(tweak_avd_config_spec(s), "hw.initialOrientation"@ + "="@),
        contains_seq(tweak_avd_config_spec(s), "showDeviceFrame"@ + "="@),
        contains_seq(tweak_avd_config_spec(s), "hw.keyboard"@ + "="@),
{
    let s1 = add_setting(s, "hw.initialOrientation"@, "landscape"@);
    let s2 = add_setting(s1, "showDeviceFrame"@, "no"@);
    lemma_add_setting(s, "hw.initialOrientation"@, "landscape"@, "="@);
    lemma_add_setting(s1, "showDeviceFrame"@, "no"@, "hw.initialOrientation"@ + "="@);
    lemma_add_setting(s2, "hw.keyboard"@, "yes"@, "hw.initialOrientation"@ + "="@);
    lemma_add_setting(s2, "hw.keyboard"@, "yes"@, "showDeviceFrame"@ + "="@);
}

/// Tweaking an AVD configuration twice gives the same file as tweaking it
/// once: the settings are only added where they are absent.
pub proof fn lemma_tweak_idempotent(s: Seq<char>)
    ensures
        tweak_avd_config_spec(tweak_avd_config_spec(s)) == tweak_avd_config_spec(s),
{
    lemma_tweak_sets_all(s);
    let t = tweak_avd_config_spec(s);
    lemma_add_setting(t, "hw.initialOrientation"@, "landscape"@, "showDeviceFrame"@ + "="@);
    lemma_add_setting(t, "hw.initialOrientation"@, "landscape"@, "hw.keyboard"@ + "="@);
    assert(add_setting(t, "hw.initialOrientation"@, "landscape"@) == t);
    assert(add_setting(t, "showDeviceFrame"@, "no"@) == t);
}

/// The name of the AVD the setup creates.
pub open spec fn avd_name_spec() -> Seq<char> {
    "Andremul"@
}

/// `~/.android/avd/<name>.avd/config.ini`
pub open spec fn avd_config_path_spec(home: Seq<char>, name: Seq<char>) -> Seq<char> {
    path_join(home, ".android/avd/"@ + name + ".avd/config.ini"@)
}

pub fn avd_config_path(home: &str, name: &str) -> (r: String)
    ensures
        r@ == avd_config_path_spec(home@, name@),
{
    let mut rel = ".android/avd/".to_owned();
    rel.append(name);
    rel.append(".avd/config.ini");
    join_path(home, rel.as_str())
}

/// The AVD `name` is among the listed AVDs.
pub fn avd_present(avds: &Vec<String>, name: &str) -> (r: bool)
    ensures
        r == avds.deep_view().contains(name@),
{
    let ghost av = avds.deep_view();
    let n = avds.len();
    let mut i: usize = 0;
    while i < n
        invariant
            n == avds@.len(),
            i <= n,
            av == avds.deep_view(),
            forall|k: int| 0 <= k < i ==> av[k] != name@,
        decreases n - i,
    {
        if str_eq(avds[i].as_str(), name) {
            assert(av[i as int] == name@);
            assert(av.contains(name@));
            return true;
        }
        i = i + 1;
    }
    false
}

/// avdmanager arguments that create the landscape tablet AVD from `image`.
pub open spec fn create_avd_args_spec(name: Seq<char>, image: Seq<char>) -> Seq<Seq<char>> {
    seq![
        "create"@,
        "avd"@,
        "-n"@,
        name,
        "-k"@,
        image,
        "--device"@,
        "10.1in WXGA (Tablet)"@,
        "--force"@,
    ]
}

pub fn create_avd_args(name: &str, image: &str) -> (r: Vec<String>)
    ensures
        r.deep_view() == create_avd_args_spec(name@, image@),
{
    let mut a: Vec<String> = Vec::new();
    a.push("create".to_owned());
    a.push("avd".to_owned());
    a.push("-n".to_owned());
    a.push(name.to_owned());
    a.push("-k".to_owned());
    a.push(image.to_owned());
    a.push("--device".to_owned());
    a.push("10.1in WXGA (Tablet)".to_owned());
    a.push("--force".to_owned());
    assert(a.deep_view() =~= create_avd_args_spec(name@, image@));
    a
}

/// The SDK packages the setup installs: platform tools, the emulator,
/// platform 34 and the Play Store image for the host CPU.
pub open spec fn sdk_packages_spec(arch: HostArch) -> Seq<Seq<char>> {
    seq!["platform-tools"@, "emulator"@, "platforms;android-34"@, system_image_spec(arch)]
}

pub fn sdk_packages(arch: HostArch) -> (r: Vec<String>)
    ensures
        r.deep_view() == sdk_packages_spec(arch),
{
    let mut a: Vec<String> = Vec::new();
    a.push("platform-tools".to_owned());
    a.push("emulator".to_owned());
    a.push("platforms;android-34".to_owned());
    a.push(system_image(arch));
    assert(a.deep_view() =~= sdk_packages_spec(arch));
    a
}

/// `text` repeated `n` times (`str::repeat`).
pub open spec fn repeat_spec(text: Seq<char>, n: nat) -> Seq<char>
    decreases n,
{
    if n == 0 {
        seq![]
    } else {
        repeat_spec(text, (n - 1) as nat) + text
    }
}

pub fn repeat_str(text: &str, n: usize) -> (r: String)
    ensures
        r@ == repeat_spec(text@, n as nat),
{
    let mut r = String::new();
    let mut i: usize = 0;
    while i < n
        invariant
            i <= n,
            r@ == repeat_spec(text@, i as nat),
        decreases n - i,
    {
        r.append(text);
        i = i + 1;
    }
    r
}

/// What is typed into `sdkmanager --licenses`: a `y` for each of up to 60
/// license prompts.
pub fn license_answers() -> (r: String)
    ensures
        r@ == repeat_spec("y\n"@, 60),
{
    repeat_str("y\n", 60)
}

/// Where the JDK download goes and what it is.
pub struct JdkPlan {
    /// `~/.andremul/jdk`, where the archive is unpacked
    pub dir: String,
    /// the downloaded archive inside `dir`
    pub archive: String,
    /// Adoptium download URL
    pub url: String,
    /// `true` for a zip (Windows), `false` for a gzipped tarball
    pub zip: bool,
}

/// The JDK download plan for the host.
pub fn jdk_plan(os: HostOs, arch: HostArch, home: &str) -> (r: JdkPlan)
    ensures
        r.dir@ == path_join(home@, ".andremul/jdk"@),
        r.zip == (os == HostOs::Windows),
        r.archive@ == path_join(
            r.dir@,
            if os == HostOs::Windows {
                "temurin.zip"@
            } else {
                "temurin.tar.gz"@
            },
        ),
        r.url@ == crate::host::temurin_url_spec(os, arch),
{
    let dir = join_path(home, ".andremul/jdk");
    let zip = match os {
        HostOs::Windows => true,
        _ => false,
    };
    let archive = if zip {
        join_path(dir.as_str(), "temurin.zip")
    } else {
        join_path(dir.as_str(), "temurin.tar.gz")
    };
    let url = crate::host::temurin_url(os, arch);
    JdkPlan { dir, archive, url, zip }
}

/// Where the command-line tools are downloaded, unpacked and placed.
pub struct CltLayout {
    /// `<root>/cmdline-tools`
    pub dir: String,
    /// `<root>/cmdline-tools/clt.zip`
    pub archive: String,
    /// `<root>/cmdline-tools/_unzip`, the scratch folder
    pub unzip_dir: String,
    /// `_unzip/cmdline-tools`, the archive's top folder
    pub unpacked: String,
    /// `<root>/cmdline-tools/latest`
    pub dest: String,
    /// `latest/bin`, whose scripts are made executable
    pub bin: String,
}

pub fn clt_layout(root: &str) -> (r: CltLayout)
    ensures
        r.dir@ == path_join(root@, "cmdline-tools"@),
        r.archive@ == path_join(r.dir@, "clt.zip"@),
        r.unzip_dir@ == path_join(r.dir@, "_unzip"@),
        r.unpacked@ == path_join(r.unzip_dir@, "cmdline-tools"@),
        r.dest@ == path_join(r.dir@, "latest"@),
        r.bin@ == path_join(r.dest@, "bin"@),
{
    let dir = join_path(root, "cmdline-tools");
    let archive = join_path(dir.as_str(), "clt.zip");
    let unzip_dir = join_path(dir.as_str(), "_unzip");
    let unpacked = join_path(unzip_dir.as_str(), "cmdline-tools");
    let dest = join_path(dir.as_str(), "latest");
    let bin = join_path(dest.as_str(), "bin");
    CltLayout { dir, archive, unzip_dir, unpacked, dest, bin }
}

/// The line that opens a download: `Downloading <label>…`.
pub fn download_start_line(label: &str) -> (r: String)
    ensures
        r@ == "Downloading "@ + label@ + "…"@,
{
    let mut s = "Downloading ".to_owned();
    s.append(label);
    s.append("…");
    s
}

/// A progress line is due once more than 25 MB arrived since the last one.
pub fn progress_due(total: u64, last: u64) -> (r: bool)
    requires
        last <= total,
    ensures
        r == (total - last > 25_000_000),
{
    total - last > 25_000_000
}

/// Whole mebibytes in `bytes`.
pub open spec fn mib(bytes: nat) -> nat {
    bytes / 1_048_576
}

/// `  <label>: <MiB> MB`, then ` (<percent>%)` when the length is known.
pub open spec fn progress_line_spec(label: Seq<char>, total: nat, total_len: nat) -> Seq<char> {
    let pct = if total_len > 0 {
        " ("@ + decimal(total * 100 / total_len) + "%)"@
    } else {
        ""@
    };
    "  "@ + label + ": "@ + decimal(mib(total)) + " MB"@ + pct
}

pub fn progress_line(label: &str, total: u64, total_len: u64) -> (r: String)
    requires
        total_len > 0 ==> total * 100 <= u64::MAX,
    ensures
        r@ == progress_line_spec(label@, total as nat, total_len as nat),
{
    let mut s = "  ".to_owned();
    s.append(label);
    s.append(": ");
    let mb = to_decimal(total / 1_048_576);
    s.append(mb.as_str());
    s.append(" MB");
    let ghost head = s@;
    if total_len > 0 {
        s.append(" (");
        let pct = to_decimal(total * 100 / total_len);
        s.append(pct.as_str());
        s.append("%)");
        assert(s@ =~= head + (" ("@ + pct@ + "%)"@));
    } else {
        proof {
            reveal_strlit("");
        }
        assert(s@ =~= head + ""@);
    }
    s
}

/// `  <label>: <MiB> MB ✓`, the line that closes a download.
pub fn progress_done_line(label: &str, total: u64) -> (r: String)
    ensures
        r@ == "  "@ + label@ + ": "@ + decimal(mib(total as nat)) + " MB ✓"@,
{
    let mut s = "  ".to_owned();
    s.append(label);
    s.append(": ");
    let mb = to_decimal(total / 1_048_576);
    s.append(mb.as_str());
    s.append(" MB ✓");
    s
}

} // verus!
