//! Cross-platform Android SDK and JDK locator: where each SDK tool lives under
//! the SDK root, which root and JDK to use, and the environment handed to the
//! SDK's tools.

use vstd::prelude::*;

use crate::host::{HostEnv, HostOs};
use crate::order::{newest_first, sort_desc};
use crate::paths::{
    first_existing, first_present, first_true, join_path, lemma_first_true_props, path_exists, path_join,
    reports_first,
};

verus! {

/// An Android SDK installation: its root directory and the host it is on.
pub struct AndroidSdk {
    pub root: String,
    pub host: HostOs,
}

/// The first of the two SDK root variables that is set and not empty.
pub open spec fn root_from_vars(sdk_root: Option<Seq<char>>, android_home: Option<Seq<char>>) -> Option<
    Seq<char>,
> {
    match sdk_root {
        Some(v) if v.len() > 0 => Some(v),
        _ => match android_home {
            Some(v) if v.len() > 0 => Some(v),
            _ => None,
        },
    }
}

/// The conventional SDK location for `os`, given the home directory and
/// `%LOCALAPPDATA%`.
pub open spec fn default_root_spec(os: HostOs, home: Seq<char>, local_app_data: Option<Seq<char>>) -> Seq<
    char,
> {
    match os {
        HostOs::MacOs => path_join(home, "Library/Android/sdk"@),
        HostOs::Windows => {
            let local = match local_app_data {
                Some(l) => l,
                None => path_join(home, "AppData/Local"@),
            };
            path_join(local, "Android/Sdk"@)
        },
        HostOs::Linux => path_join(home, "Android/Sdk"@),
    }
}

/// `java` under a JDK home: `bin/java`, with `.exe` on Windows.
pub open spec fn java_bin_spec(os: HostOs) -> Seq<char> {
    "bin/java"@ + os.exe_spec()
}

/// Where an unpacked JDK may sit under the home directory: Android Studio's
/// `jdk17` folder on macOS, `~/.andremul/jdk` elsewhere.
pub open spec fn local_jdk_bases_spec(home: Seq<char>) -> Seq<Seq<char>> {
    seq![path_join(home, "Library/Android/jdk17"@), path_join(home, ".andremul/jdk"@)]
}

/// Android Studio's bundled runtime (JBR) locations for `os`.
pub open spec fn studio_jbr_spec(os: HostOs, home: Seq<char>) -> Seq<Seq<char>> {
    match os {
        HostOs::MacOs => seq!["/Applications/Android Studio.app/Contents/jbr/Contents/Home"@],
        HostOs::Windows => seq![
            "C:\\Program Files\\Android\\Android Studio\\jbr"@,
            "C:\\Program Files\\Android\\Android Studio\\jre"@,
        ],
        HostOs::Linux => seq!["/opt/android-studio/jbr"@, path_join(home, "android-studio/jbr"@)],
    }
}

/// Probe pairs (path whose existence is checked, JDK home it stands for) of
/// the JDK directories `dirs` under `base`: each in the macOS bundle layout
/// `<dir>/Contents/Home`, then in the plain layout.
pub open spec fn jdk_dir_probes(base: Seq<char>, dirs: Seq<Seq<char>>, java_bin: Seq<char>) -> Seq<
    (Seq<char>, Seq<char>),
>
    decreases dirs.len(),
{
    if dirs.len() == 0 {
        seq![]
    } else {
        let d = path_join(base, dirs.last());
        let mac_home = path_join(d, "Contents/Home"@);
        jdk_dir_probes(base, dirs.drop_last(), java_bin) + seq![
            (path_join(mac_home, java_bin), mac_home),
            (path_join(d, java_bin), d),
        ]
    }
}

/// What the host shows of its JDKs besides `JAVA_HOME`: the home directory,
/// and the entries of the two local JDK folders (`local_jdk_bases`), empty
/// when a folder is missing or unreadable.
pub struct JavaProbe {
    pub home: String,
    pub jdk17_entries: Vec<String>,
    pub andremul_jdk_entries: Vec<String>,
}

/// The result of `tool_candidates` picked by existence answers: the first
/// candidate found, else the `latest` location (`cands[0]`).
pub open spec fn pick_tool(cands: Seq<Seq<char>>, present: Seq<bool>) -> Seq<char> {
    match first_true(present) {
        Some(i) if i < cands.len() => cands[i],
        _ => cands[0],
    }
}

/// The JDK home of the first probe found, if any.
pub open spec fn pick_home(probes: Seq<(Seq<char>, Seq<char>)>, present: Seq<bool>) -> Option<
    Seq<char>,
> {
    match first_true(present) {
        Some(i) if i < probes.len() => Some(probes[i].1),
        _ => None,
    }
}

/// The candidate that existence answers select (`pick_tool`).
pub fn select_tool(cands: &Vec<String>, found: &Vec<bool>) -> (r: String)
    requires
        cands@.len() > 0,
    ensures
        r@ == pick_tool(cands.deep_view(), found@),
{
    let ghost c = cands.deep_view();
    match first_present(found) {
        Some(i) if i < cands.len() => {
            let r = cands[i].clone();
            assert(r@ == c[i as int]);
            r
        },
        _ => {
            let r = cands[0].clone();
            assert(r@ == c[0]);
            r
        },
    }
}

/// The JDK home that existence answers select (`pick_home`).
pub fn select_home(probes: &Vec<(String, String)>, found: &Vec<bool>) -> (r: Option<String>)
    ensures
        r.deep_view() == pick_home(probes.deep_view(), found@),
{
    let ghost pv = probes.deep_view();
    match first_present(found) {
        Some(i) if i < probes.len() => {
            let h = probes[i].1.clone();
            assert(h@ == pv[i as int].1);
            Some(h)
        },
        _ => None,
    }
}

/// Whether the SDK is ready, given whether `adb` and the emulator exist and
/// the existence answers for the command-line tool candidates and the JDK
/// probes: all four must be found.
pub open spec fn ready_spec(
    adb: bool,
    emulator: bool,
    tool_found: Seq<bool>,
    probes: Seq<(Seq<char>, Seq<char>)>,
    java_found: Seq<bool>,
) -> bool {
    adb && emulator && first_true(tool_found) is Some && pick_home(probes, java_found) is Some
}

/// The JDK choice does not depend on the SDK root: two SDKs on the same
/// host pick the same JDK from the same existence answers.
pub proof fn lemma_java_home_independent_of_root(
    a: AndroidSdk,
    b: AndroidSdk,
    java_home_var: Option<Seq<char>>,
    home: Seq<char>,
    jdk17_entries: Seq<Seq<char>>,
    andremul_jdk_entries: Seq<Seq<char>>,
    found: Seq<bool>,
)
    requires
        a.host == b.host,
    ensures
        pick_home(a.java_probes_spec(java_home_var, home, jdk17_entries, andremul_jdk_entries), found)
            == pick_home(
            b.java_probes_spec(java_home_var, home, jdk17_entries, andremul_jdk_entries),
            found,
        ),
{
}

/// The environment handed to SDK tools: both SDK root variables set to the
/// root, and `JAVA_HOME` when a JDK was found.
pub open spec fn tool_env_spec(root: Seq<char>, java_home: Option<Seq<char>>) -> Seq<
    (Seq<char>, Seq<char>),
> {
    let base = seq![("ANDROID_SDK_ROOT"@, root), ("ANDROID_HOME"@, root)];
    match java_home {
        Some(jh) => base.push(("JAVA_HOME"@, jh)),
        None => base,
    }
}

/// Android Studio's bundled runtime locations for `os`.
pub fn studio_jbr_candidates(os: HostOs, home: &str) -> (r: Vec<String>)
    ensures
        r.deep_view() == studio_jbr_spec(os, home@),
{
    let mut r: Vec<String> = Vec::new();
    match os {
        HostOs::MacOs => {
            r.push("/Applications/Android Studio.app/Contents/jbr/Contents/Home".to_owned());
        },
        HostOs::Windows => {
            r.push("C:\\Program Files\\Android\\Android Studio\\jbr".to_owned());
            r.push("C:\\Program Files\\Android\\Android Studio\\jre".to_owned());
        },
        HostOs::Linux => {
            r.push("/opt/android-studio/jbr".to_owned());
            r.push(join_path(home, "android-studio/jbr"));
        },
    }
    assert(r.deep_view() =~= studio_jbr_spec(os, home@));
    r
}

/// `JAVA_HOME`, when set and present on disk, wins over every other JDK.
pub proof fn lemma_java_home_var_first(
    sdk: AndroidSdk,
    jh: Seq<char>,
    home: Seq<char>,
    jdk17_entries: Seq<Seq<char>>,
    andremul_jdk_entries: Seq<Seq<char>>,
    present: Seq<bool>,
)
    requires
        present.len() > 0,
        present[0],
    ensures
        pick_home(
            sdk.java_probes_spec(Some(jh), home, jdk17_entries, andremul_jdk_entries),
            present,
        ) == Some(jh),
{
    let probes = sdk.java_probes_spec(Some(jh), home, jdk17_entries, andremul_jdk_entries);
    assert(probes[0] == (jh, jh));
}

/// A tool under `cmdline-tools/latest` wins over every versioned folder.
pub proof fn lemma_latest_tool_first(sdk: AndroidSdk, name: Seq<char>, versions: Seq<Seq<char>>, present: Seq<bool>)
    requires
        present.len() > 0,
        present[0],
    ensures
        pick_tool(sdk.tool_candidates_spec(name, versions), present) == sdk.tool_in_spec(
            path_join(sdk.tools_base_spec(), "latest"@),
            name,
        ),
{
}

/// The conventional SDK root for `os`, from the home directory and
/// `%LOCALAPPDATA%`.
pub fn default_root_for(os: HostOs, home: &str, local_app_data: &Option<String>) -> (r: String)
    ensures
        r@ == default_root_spec(os, home@, local_app_data.deep_view()),
{
    match os {
        HostOs::MacOs => join_path(home, "Library/Android/sdk"),
        HostOs::Windows => {
            let local = match local_app_data {
                Some(l) => l.clone(),
                None => join_path(home, "AppData/Local"),
            };
            join_path(local.as_str(), "Android/Sdk")
        },
        HostOs::Linux => join_path(home, "Android/Sdk"),
    }
}

impl AndroidSdk {
    pub open spec fn adb_spec(&self) -> Seq<char> {
        path_join(path_join(self.root@, "platform-tools"@), "adb"@ + self.host.exe_spec())
    }

    pub open spec fn emulator_spec(&self) -> Seq<char> {
        path_join(path_join(self.root@, "emulator"@), "emulator"@ + self.host.exe_spec())
    }

    /// `<root>/cmdline-tools`
    pub open spec fn tools_base_spec(&self) -> Seq<char> {
        path_join(self.root@, "cmdline-tools"@)
    }

    /// The script `name` under `<dir>/bin`.
    pub open spec fn tool_in_spec(&self, dir: Seq<char>, name: Seq<char>) -> Seq<char> {
        path_join(path_join(dir, "bin"@), name + self.host.script_spec())
    }

    /// Where a command-line tool may be, in search order: under `latest`,
    /// then under each versioned folder, newest first.
    pub open spec fn tool_candidates_spec(&self, name: Seq<char>, versions: Seq<Seq<char>>) -> Seq<
        Seq<char>,
    > {
        let base = self.tools_base_spec();
        seq![self.tool_in_spec(path_join(base, "latest"@), name)] + newest_first(
            versions,
        ).map_values(|v: Seq<char>| self.tool_in_spec(path_join(base, v), name))
    }

    /// Every (path to check, JDK home) probe, in search order: `JAVA_HOME`,
    /// the local JDK folders (newest entry first), Android Studio's runtime.
    pub open spec fn java_probes_spec(
        &self,
        java_home_var: Option<Seq<char>>,
        home: Seq<char>,
        jdk17_entries: Seq<Seq<char>>,
        andremul_jdk_entries: Seq<Seq<char>>,
    ) -> Seq<(Seq<char>, Seq<char>)> {
        let jb = java_bin_spec(self.host);
        let bases = local_jdk_bases_spec(home);
        let from_var = match java_home_var {
            Some(jh) => seq![(jh, jh)],
            None => seq![],
        };
        from_var + jdk_dir_probes(bases[0], newest_first(jdk17_entries), jb) + jdk_dir_probes(
            bases[1],
            newest_first(andremul_jdk_entries),
            jb,
        ) + studio_jbr_spec(self.host, home).map_values(
            |c: Seq<char>| (path_join(c, jb), c),
        )
    }

    /// The SDK named by `ANDROID_SDK_ROOT` or `ANDROID_HOME` (the first that
    /// is set and not empty), else the conventional location for the host.
    pub fn resolve(env: &HostEnv) -> (r: AndroidSdk)
        ensures
            r.host == env.os,
            root_from_vars(env.android_sdk_root.deep_view(), env.android_home.deep_view()) matches Some(
                v,
            ) ==> r.root@ == v,
            root_from_vars(env.android_sdk_root.deep_view(), env.android_home.deep_view()) is None
                ==> exists|home: Seq<char>|
                r.root@ == default_root_spec(env.os, home, env.local_app_data.deep_view()),
    {
        match &env.android_sdk_root {
            Some(p) => {
                if p.unicode_len() > 0 {
                    return AndroidSdk { root: p.clone(), host: env.os };
                }
            },
            None => {},
        }
        match &env.android_home {
            Some(p) => {
                if p.unicode_len() > 0 {
                    return AndroidSdk { root: p.clone(), host: env.os };
                }
            },
            None => {},
        }
        let home = crate::paths::home_or_empty();
        let root = default_root_for(env.os, home.as_str(), &env.local_app_data);
        AndroidSdk { root, host: env.os }
    }

    /// Whether the SDK root exists on disk.
    pub fn root_exists(&self) -> bool {
        path_exists(self.root.as_str())
    }

    /// `<root>/platform-tools/adb[.exe]`
    pub fn adb(&self) -> (r: String)
        ensures
            r@ == self.adb_spec(),
    {
        let dir = join_path(self.root.as_str(), "platform-tools");
        let mut name = "adb".to_owned();
        name.append(self.host.exe_suffix());
        join_path(dir.as_str(), name.as_str())
    }

    /// `<root>/emulator/emulator[.exe]`
    pub fn emulator(&self) -> (r: String)
        ensures
            r@ == self.emulator_spec(),
    {
        let dir = join_path(self.root.as_str(), "emulator");
        let mut name = "emulator".to_owned();
        name.append(self.host.exe_suffix());
        join_path(dir.as_str(), name.as_str())
    }

    /// The script `name` under `<dir>/bin`.
    fn tool_in(&self, dir: &str, name: &str) -> (r: String)
        ensures
            r@ == self.tool_in_spec(dir@, name@),
    {
        let bin = join_path(dir, "bin");
        let mut file = name.to_owned();
        file.append(self.host.script_suffix());
        join_path(bin.as_str(), file.as_str())
    }

    /// The places a command-line tool may be, in the order they are tried.
    /// `versions` are the entries of `<root>/cmdline-tools`.
    pub fn tool_candidates(&self, name: &str, versions: &Vec<String>) -> (r: Vec<String>)
        ensures
            r.deep_view() == self.tool_candidates_spec(name@, versions.deep_view()),
    {
        let base = join_path(self.root.as_str(), "cmdline-tools");
        let latest_dir = join_path(base.as_str(), "latest");
        let mut r: Vec<String> = Vec::new();
        r.push(self.tool_in(latest_dir.as_str(), name));
        let sorted = sort_desc(versions);
        let ghost ord = newest_first(versions.deep_view());
        let ghost f = |v: Seq<char>| self.tool_in_spec(path_join(base@, v), name@);
        let n = sorted.len();
        let mut i: usize = 0;
        assert(r.deep_view() =~= seq![self.tool_in_spec(latest_dir@, name@)] + ord.take(
            0,
        ).map_values(f));
        while i < n
            invariant
                n == sorted@.len(),
                i <= n,
                sorted.deep_view() == ord,
                base@ == self.tools_base_spec(),
                latest_dir@ == path_join(base@, "latest"@),
                f == (|v: Seq<char>| self.tool_in_spec(path_join(base@, v), name@)),
                r.deep_view() == seq![self.tool_in_spec(latest_dir@, name@)] + ord.take(
                    i as int,
                ).map_values(f),
            decreases n - i,
        {
            let dir = join_path(base.as_str(), sorted[i].as_str());
            assert(sorted[i as int]@ == ord[i as int]);
            let ghost old_r = r.deep_view();
            r.push(self.tool_in(dir.as_str(), name));
            assert(r.deep_view() =~= old_r.push(f(ord[i as int])));
            assert(ord.take(i + 1).map_values(f) =~= ord.take(i as int).map_values(f).push(
                f(ord[i as int]),
            ));
            i = i + 1;
        }
        assert(ord.take(n as int) =~= ord);
        r
    }

    /// The command-line tool that existence answers for `tool_candidates`
    /// select: under `cmdline-tools/latest` when found there, else in the
    /// newest versioned folder found to have it, else the `latest` location.
    pub fn cmdline_tool_from(&self, name: &str, versions: &Vec<String>, found: &Vec<bool>) -> (r: String)
        ensures
            r@ == pick_tool(self.tool_candidates_spec(name@, versions.deep_view()), found@),
    {
        let cands = self.tool_candidates(name, versions);
        assert(cands@.len() == cands.deep_view().len());
        select_tool(&cands, found)
    }

    /// A command-line tool, located by checking the candidates in order on
    /// disk: the selection of `cmdline_tool_from` over the answers the disk
    /// gave.
    pub fn cmdline_tool(&self, name: &str, versions: &Vec<String>) -> (r: String)
        ensures
            exists|found: Seq<bool>|
                found.len() == self.tool_candidates_spec(name@, versions.deep_view()).len()
                    && r@ == pick_tool(
                    self.tool_candidates_spec(name@, versions.deep_view()),
                    found,
                ),
    {
        let cands = self.tool_candidates(name, versions);
        assert(cands@.len() == cands.deep_view().len());
        let (_hit, found) = first_existing(&cands);
        let r = select_tool(&cands, &found);
        assert(found@.len() == cands.deep_view().len());
        r
    }

    /// `sdkmanager`, located as `cmdline_tool` does.
    pub fn sdkmanager(&self, versions: &Vec<String>) -> (r: String)
        ensures
            exists|found: Seq<bool>|
                found.len() == self.tool_candidates_spec("sdkmanager"@, versions.deep_view()).len()
                    && r@ == pick_tool(
                    self.tool_candidates_spec("sdkmanager"@, versions.deep_view()),
                    found,
                ),
    {
        self.cmdline_tool("sdkmanager", versions)
    }

    /// `avdmanager`, located as `cmdline_tool` does.
    pub fn avdmanager(&self, versions: &Vec<String>) -> (r: String)
        ensures
            exists|found: Seq<bool>|
                found.len() == self.tool_candidates_spec("avdmanager"@, versions.deep_view()).len()
                    && r@ == pick_tool(
                    self.tool_candidates_spec("avdmanager"@, versions.deep_view()),
                    found,
                ),
    {
        self.cmdline_tool("avdmanager", versions)
    }

    /// Whether `adb` is installed.
    pub fn has_adb(&self) -> bool {
        let p = self.adb();
        path_exists(p.as_str())
    }

    /// Whether the emulator is installed.
    pub fn has_emulator(&self) -> bool {
        let p = self.emulator();
        path_exists(p.as_str())
    }

    /// Whether the command-line tools are installed: whether `sdkmanager` is
    /// found at one of its candidate locations, checked in order on disk.
    pub fn has_cmdline_tools(&self, versions: &Vec<String>) -> (r: bool)
        ensures
            exists|found: Seq<bool>|
                found.len() == self.tool_candidates_spec("sdkmanager"@, versions.deep_view()).len()
                    && r == (first_true(found) is Some),
    {
        let cands = self.tool_candidates("sdkmanager", versions);
        let (hit, found) = first_existing(&cands);
        assert(found@.len() == cands@.len());
        hit.is_some()
    }

    /// The local JDK folders to list for `JavaProbe`.
    pub fn local_jdk_bases(home: &str) -> (r: Vec<String>)
        ensures
            r.deep_view() == local_jdk_bases_spec(home@),
    {
        let mut r: Vec<String> = Vec::new();
        r.push(join_path(home, "Library/Android/jdk17"));
        r.push(join_path(home, ".andremul/jdk"));
        assert(r.deep_view() =~= local_jdk_bases_spec(home@));
        r
    }

    /// Probe pairs for the JDK directories `entries` under `base`, newest
    /// entry first.
    fn jdk_dir_probe_list(&self, base: &str, entries: &Vec<String>, out: &mut Vec<(String, String)>)
        ensures
            final(out).deep_view() == old(out).deep_view() + jdk_dir_probes(
                base@,
                newest_first(entries.deep_view()),
                java_bin_spec(self.host),
            ),
    {
        let sorted = sort_desc(entries);
        let ghost ord = newest_first(entries.deep_view());
        let ghost jb = java_bin_spec(self.host);
        let ghost start = out.deep_view();
        let mut java_bin = "bin/java".to_owned();
        java_bin.append(self.host.exe_suffix());
        let n = sorted.len();
        let mut i: usize = 0;
        assert(ord.take(0) =~= Seq::<Seq<char>>::empty());
        assert(out.deep_view() =~= start + jdk_dir_probes(base@, ord.take(0), jb));
        while i < n
            invariant
                n == sorted@.len(),
                i <= n,
                sorted.deep_view() == ord,
                java_bin@ == jb,
                out.deep_view() == start + jdk_dir_probes(base@, ord.take(i as int), jb),
            decreases n - i,
        {
            let d = join_path(base, sorted[i].as_str());
            let mac_home = join_path(d.as_str(), "Contents/Home");
            let mac_java = join_path(mac_home.as_str(), java_bin.as_str());
            let plain_java = join_path(d.as_str(), java_bin.as_str());
            assert(sorted[i as int]@ == ord[i as int]);
            let ghost before = out.deep_view();
            let ghost pairs = seq![(mac_java@, mac_home@), (plain_java@, d@)];
            out.push((mac_java, mac_home));
            out.push((plain_java, d));
            assert(ord.take(i + 1).drop_last() =~= ord.take(i as int));
            assert(ord.take(i + 1).last() == ord[i as int]);
            assert(jdk_dir_probes(base@, ord.take(i + 1), jb) == jdk_dir_probes(
                base@,
                ord.take(i as int),
                jb,
            ) + pairs);
            assert(out.deep_view() =~= before + pairs);
            assert(out.deep_view() =~= start + jdk_dir_probes(base@, ord.take(i + 1), jb));
            i = i + 1;
        }
        assert(ord.take(n as int) =~= ord);
    }

    /// Every (path to check, JDK home) probe, in the order they are tried.
    pub fn java_probes(&self, java_home_var: &Option<String>, probe: &JavaProbe) -> (r: Vec<
        (String, String),
    >)
        ensures
            r.deep_view() == self.java_probes_spec(
                java_home_var.deep_view(),
                probe.home@,
                probe.jdk17_entries.deep_view(),
                probe.andremul_jdk_entries.deep_view(),
            ),
    {
        let ghost jb = java_bin_spec(self.host);
        let mut r: Vec<(String, String)> = Vec::new();
        match java_home_var {
            Some(jh) => {
                r.push((jh.clone(), jh.clone()));
            },
            None => {},
        }
        let ghost from_var = r.deep_view();
        let bases = Self::local_jdk_bases(probe.home.as_str());
        assert(bases@.len() == bases.deep_view().len());
        self.jdk_dir_probe_list(bases[0].as_str(), &probe.jdk17_entries, &mut r);
        self.jdk_dir_probe_list(bases[1].as_str(), &probe.andremul_jdk_entries, &mut r);
        let ghost mid = r.deep_view();
        let studio = studio_jbr_candidates(self.host, probe.home.as_str());
        let ghost st = studio.deep_view();
        let mut java_bin = "bin/java".to_owned();
        java_bin.append(self.host.exe_suffix());
        let ghost f = |c: Seq<char>| (path_join(c, jb), c);
        let n = studio.len();
        let mut i: usize = 0;
        assert(r.deep_view() =~= mid + st.take(0).map_values(f));
        while i < n
            invariant
                n == studio@.len(),
                i <= n,
                studio.deep_view() == st,
                java_bin@ == jb,
                f == (|c: Seq<char>| (path_join(c, jb), c)),
                r.deep_view() == mid + st.take(i as int).map_values(f),
            decreases n - i,
        {
            let c = studio[i].clone();
            let check = join_path(c.as_str(), java_bin.as_str());
            assert(c@ == st[i as int]);
            let ghost before = r.deep_view();
            r.push((check, c));
            assert(r.deep_view() =~= before.push(f(st[i as int])));
            assert(st.take(i + 1).map_values(f) =~= st.take(i as int).map_values(f).push(
                f(st[i as int]),
            ));
            assert(r.deep_view() =~= mid + st.take(i + 1).map_values(f));
            i = i + 1;
        }
        assert(st.take(n as int) =~= st);
        assert(from_var == (match java_home_var.deep_view() {
            Some(jh) => seq![(jh, jh)],
            None => Seq::<(Seq<char>, Seq<char>)>::empty(),
        })) by {
            assert(from_var =~= (match java_home_var.deep_view() {
                Some(jh) => seq![(jh, jh)],
                None => Seq::<(Seq<char>, Seq<char>)>::empty(),
            }));
        }
        r
    }

    /// The probes of `java_probes` for this host, as text.
    pub open spec fn java_probes_of(&self, java_home_var: &Option<String>, probe: &JavaProbe) -> Seq<
        (Seq<char>, Seq<char>),
    > {
        self.java_probes_spec(
            java_home_var.deep_view(),
            probe.home@,
            probe.jdk17_entries.deep_view(),
            probe.andremul_jdk_entries.deep_view(),
        )
    }

    /// The JDK home that existence answers for `java_probes` select: the
    /// first probe found, in the order `JAVA_HOME`, the local JDK folders
    /// (newest entry first, macOS bundle layout before plain), Android
    /// Studio's bundled runtime; `None` when none is found.
    pub fn java_home_from(&self, java_home_var: &Option<String>, probe: &JavaProbe, found: &Vec<bool>) -> (r:
        Option<String>)
        ensures
            r.deep_view() == pick_home(self.java_probes_of(java_home_var, probe), found@),
    {
        let probes = self.java_probes(java_home_var, probe);
        select_home(&probes, found)
    }

    /// A JDK 17+ home for the Java-based tools, found by checking the probes
    /// in order on disk: the selection of `java_home_from` over the answers
    /// the disk gave.
    pub fn java_home(&self, java_home_var: &Option<String>, probe: &JavaProbe) -> (r: Option<
        String,
    >)
        ensures
            exists|found: Seq<bool>|
                found.len() == self.java_probes_of(java_home_var, probe).len() && r.deep_view()
                    == pick_home(self.java_probes_of(java_home_var, probe), found),
    {
        let probes = self.java_probes(java_home_var, probe);
        let checks = probe_paths(&probes);
        let (_hit, found) = first_existing(&checks);
        let r = select_home(&probes, &found);
        assert(probes.deep_view() == self.java_probes_of(java_home_var, probe));
        assert(found@.len() == probes.deep_view().len());
        assert(r.deep_view() == pick_home(self.java_probes_of(java_home_var, probe), found@));
        r
    }

    /// Whether a JDK was found (`java_home` is `Some`).
    pub fn has_java(&self, java_home_var: &Option<String>, probe: &JavaProbe) -> (r: bool)
        ensures
            exists|found: Seq<bool>|
                found.len() == self.java_probes_of(java_home_var, probe).len() && r == pick_home(
                    self.java_probes_of(java_home_var, probe),
                    found,
                ) is Some,
    {
        self.java_home(java_home_var, probe).is_some()
    }

    /// Whether the SDK is ready, given the existence answers: `adb`, the
    /// emulator, a command-line tool candidate and a JDK probe must all be
    /// found.
    pub fn is_ready_from(
        &self,
        has_adb: bool,
        has_emulator: bool,
        tool_found: &Vec<bool>,
        java_home_var: &Option<String>,
        probe: &JavaProbe,
        java_found: &Vec<bool>,
    ) -> (r: bool)
        ensures
            r == ready_spec(
                has_adb,
                has_emulator,
                tool_found@,
                self.java_probes_of(java_home_var, probe),
                java_found@,
            ),
    {
        let tools = first_present(tool_found).is_some();
        let jdk = self.java_home_from(java_home_var, probe, java_found).is_some();
        has_adb && has_emulator && tools && jdk
    }

    /// Everything the emulator workflow needs is installed: `adb`, the
    /// emulator, the command-line tools and a JDK, each checked on disk in
    /// turn (later checks are skipped once one fails). The result is
    /// `ready_spec` over the answers the disk gave.
    pub fn is_ready(&self, versions: &Vec<String>, java_home_var: &Option<String>, probe: &JavaProbe) -> (r:
        bool)
        ensures
            exists|adb: bool, emulator: bool, tool_found: Seq<bool>, java_found: Seq<bool>|
                tool_found.len() == self.tool_candidates_spec("sdkmanager"@, versions.deep_view()).len()
                    && java_found.len() == self.java_probes_of(java_home_var, probe).len() && r
                    == #[trigger] ready_spec(
                    adb,
                    emulator,
                    tool_found,
                    self.java_probes_of(java_home_var, probe),
                    java_found,
                ),
    {
        let ghost tl = self.tool_candidates_spec("sdkmanager"@, versions.deep_view()).len();
        let ghost probes = self.java_probes_of(java_home_var, probe);
        let ghost none_t = Seq::new(tl, |k: int| false);
        let ghost none_j = Seq::new(probes.len(), |k: int| false);
        if !self.has_adb() {
            assert(!ready_spec(false, false, none_t, probes, none_j));
            return false;
        }
        if !self.has_emulator() {
            assert(!ready_spec(true, false, none_t, probes, none_j));
            return false;
        }
        let tools = self.has_cmdline_tools(versions);
        let ghost ft = choose|found: Seq<bool>| found.len() == tl && tools == (first_true(found) is Some);
        if !tools {
            assert(!ready_spec(true, true, ft, probes, none_j));
            return false;
        }
        let jdk = self.has_java(java_home_var, probe);
        let ghost fj = choose|found: Seq<bool>|
            found.len() == probes.len() && jdk == (pick_home(probes, found) is Some);
        assert(jdk == ready_spec(true, true, ft, probes, fj));
        jdk
    }

    /// Environment overrides handed to SDK tools so they agree on locations
    /// and find the JDK.
    pub fn tool_env(&self, java_home: &Option<String>) -> (r: Vec<(String, String)>)
        ensures
            r.deep_view() == tool_env_spec(self.root@, java_home.deep_view()),
    {
        let mut v: Vec<(String, String)> = Vec::new();
        v.push(("ANDROID_SDK_ROOT".to_owned(), self.root.clone()));
        v.push(("ANDROID_HOME".to_owned(), self.root.clone()));
        match java_home {
            Some(jh) => {
                v.push(("JAVA_HOME".to_owned(), jh.clone()));
            },
            None => {},
        }
        assert(v.deep_view() =~= tool_env_spec(self.root@, java_home.deep_view()));
        v
    }
}

/// The path each probe checks on disk, in probe order.
pub fn probe_paths(probes: &Vec<(String, String)>) -> (r: Vec<String>)
    ensures
        r.deep_view() == probes.deep_view().map_values(|p: (Seq<char>, Seq<char>)| p.0),
        r@.len() == probes@.len(),
{
    let ghost f = |p: (Seq<char>, Seq<char>)| p.0;
    let mut r: Vec<String> = Vec::new();
    let n = probes.len();
    let mut i: usize = 0;
    while i < n
        invariant
            n == probes@.len(),
            i <= n,
            f == (|p: (Seq<char>, Seq<char>)| p.0),
            r.deep_view() == probes.deep_view().take(i as int).map_values(f),
        decreases n - i,
    {
        let c = probes[i].0.clone();
        assert(c@ == probes.deep_view()[i as int].0);
        let ghost before = r.deep_view();
        r.push(c);
        assert(r.deep_view() =~= before.push(c@));
        assert(probes.deep_view().take(i + 1).map_values(f) =~= probes.deep_view().take(
            i as int,
        ).map_values(f).push(f(probes.deep_view()[i as int])));
        i = i + 1;
    }
    assert(probes.deep_view().take(n as int) =~= probes.deep_view());
    assert(r@.len() == r.deep_view().len());
    r
}

} // verus!
