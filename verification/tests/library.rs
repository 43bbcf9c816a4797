use andremul::adb;
use andremul::bootstrap;
use andremul::emulator;
use andremul::host::{self, HostArch, HostEnv, HostOs};
use andremul::order;
use andremul::paths;
use andremul::proc::Output;
use andremul::scrcpy;
use andremul::sdk::{self, AndroidSdk, JavaProbe};
use andremul::session::{self, AutoLaunch, BootWatch, Session, StartPlan, WatchAction, WatchEvent};
use andremul::text;

fn out(stdout: &str) -> Output {
    Output { code: 0, stdout: stdout.to_string(), stderr: String::new(), ok: true }
}

fn strs(v: &[&str]) -> Vec<String> {
    v.iter().map(|s| s.to_string()).collect()
}

fn linux_sdk(root: &str) -> AndroidSdk {
    AndroidSdk { root: root.to_string(), host: HostOs::Linux }
}

fn env(os: HostOs) -> HostEnv {
    HostEnv {
        os,
        arch: HostArch::Other,
        android_sdk_root: None,
        android_home: None,
        local_app_data: None,
        java_home: None,
        path: None,
    }
}

// ---- text ----

#[test]
fn lines_split_like_str_lines() {
    assert_eq!(text::split_lines("a\r\nb\n\nc"), strs(&["a", "b", "", "c"]));
    assert_eq!(text::split_lines("x\n"), strs(&["x"]));
    assert_eq!(text::split_lines(""), Vec::<String>::new());
    assert_eq!(text::split_lines("a\rb"), strs(&["a\rb"]));
    assert_eq!(text::split_lines("end\r"), strs(&["end\r"]));
    let s = "one\ntwo\r\n\nthree";
    let expected: Vec<String> = s.lines().map(|l| l.to_string()).collect();
    assert_eq!(text::split_lines(s), expected);
}

#[test]
fn trim_strips_unicode_whitespace() {
    assert_eq!(text::trim_str("  hi \t\n"), "hi");
    assert_eq!(text::trim_str("\u{3000}x y\u{a0}"), "x y");
    assert_eq!(text::trim_str(" \t "), "");
    assert_eq!(text::trim_str(""), "");
    assert!(text::is_whitespace('\u{2028}'));
    assert!(!text::is_whitespace('a'));
}

#[test]
fn words_split_like_split_whitespace() {
    assert_eq!(text::split_words("  emulator-5554\tdevice  "), strs(&["emulator-5554", "device"]));
    assert_eq!(text::split_words(""), Vec::<String>::new());
    assert_eq!(text::split_words("one"), strs(&["one"]));
    let s = " a  b\tc \n d ";
    let expected: Vec<String> = s.split_whitespace().map(|w| w.to_string()).collect();
    assert_eq!(text::split_words(s), expected);
}

#[test]
fn remove_all_removes_every_occurrence() {
    assert_eq!(text::remove_all_str("package:com.x", "package:"), "com.x");
    assert_eq!(text::remove_all_str("a--b--", "--"), "ab");
    assert_eq!(text::remove_all_str("packpackage:age:", "package:"), "package:");
    assert_eq!(text::remove_all_str("none", "package:"), "none");
    assert_eq!(text::remove_all_str("abc", ""), "abc".replace("", ""));
}

#[test]
fn search_and_prefix() {
    assert!(text::contains_str("hw.keyboard=yes", "keyboard="));
    assert!(!text::contains_str("hw.keyboard", "keyboard="));
    assert!(text::contains_str("abc", ""));
    assert!(text::starts_with_str("emulator-5554", "emulator-"));
    assert!(!text::starts_with_str("emu", "emulator-"));
    assert!(text::str_eq("device", "device"));
    assert!(!text::str_eq("device", "offline"));
}

#[test]
fn decimal_text() {
    assert_eq!(text::to_decimal(0), "0");
    assert_eq!(text::to_decimal(12345), "12345");
    assert_eq!(text::to_decimal(u64::MAX), u64::MAX.to_string());
}

#[test]
fn leading_number_parses_digit_run() {
    let cs: Vec<char> = "x11076708_latest".chars().collect();
    assert_eq!(text::leading_u64(&cs, 1), Some(11076708));
    assert_eq!(text::leading_u64(&cs, 0), None);
    let big: Vec<char> = "99999999999999999999".chars().collect();
    assert_eq!(text::leading_u64(&big, 0), None);
    let max: Vec<char> = "18446744073709551615z".chars().collect();
    assert_eq!(text::leading_u64(&max, 0), Some(u64::MAX));
    let empty: Vec<char> = Vec::new();
    assert_eq!(text::leading_u64(&empty, 0), None);
}

#[test]
fn split_on_char_keeps_empty_pieces() {
    assert_eq!(text::split_char("a::b", ':'), strs(&["a", "", "b"]));
    assert_eq!(text::split_char("", ':'), strs(&[""]));
    assert_eq!(text::split_char("/usr/bin:", ':'), strs(&["/usr/bin", ""]));
}

// ---- order ----

#[test]
fn lexicographic_order() {
    assert!(order::lex_less("1.0", "9.0"));
    assert!(order::lex_less("10.0", "9.0"));
    assert!(order::lex_less("a", "ab"));
    assert!(!order::lex_less("ab", "ab"));
    assert!(!order::lex_less("b", "a"));
}

#[test]
fn listing_sorted_newest_first() {
    let v = strs(&["1.0", "latest", "10.0", "9.0", "9.0"]);
    assert_eq!(order::sort_desc(&v), strs(&["latest", "9.0", "9.0", "10.0", "1.0"]));
    assert_eq!(order::sort_desc(&Vec::new()), Vec::<String>::new());
    let mut expected = v.clone();
    expected.sort();
    expected.reverse();
    assert_eq!(order::sort_desc(&v), expected);
}

// ---- host ----

#[test]
fn host_names() {
    assert_eq!(host::abi(HostArch::Aarch64), "arm64-v8a");
    assert_eq!(host::abi(HostArch::Other), "x86_64");
    assert_eq!(host::google_os(HostOs::MacOs), "mac");
    assert_eq!(host::google_os(HostOs::Windows), "win");
    assert_eq!(host::google_os(HostOs::Linux), "linux");
    assert_eq!(host::system_image(HostArch::Aarch64), "system-images;android-34;google_apis_playstore;arm64-v8a");
    assert_eq!(host::system_image(HostArch::Other), "system-images;android-34;google_apis_playstore;x86_64");
    assert_eq!(
        host::temurin_url(HostOs::Linux, HostArch::Other),
        "https://api.adoptium.net/v3/binary/latest/17/ga/linux/x64/jdk/hotspot/normal/eclipse"
    );
    assert_eq!(
        host::temurin_url(HostOs::MacOs, HostArch::Aarch64),
        "https://api.adoptium.net/v3/binary/latest/17/ga/mac/aarch64/jdk/hotspot/normal/eclipse"
    );
    assert_eq!(HostOs::Windows.exe_suffix(), ".exe");
    assert_eq!(HostOs::Linux.exe_suffix(), "");
    assert_eq!(HostOs::Windows.script_suffix(), ".bat");
    assert_eq!(HostOs::MacOs.path_list_separator(), ':');
    assert_eq!(HostOs::Windows.path_list_separator(), ';');
}

// ---- sdk ----

#[test]
fn sdk_tool_paths() {
    let s = linux_sdk("/sdk");
    assert_eq!(s.adb(), "/sdk/platform-tools/adb");
    assert_eq!(s.emulator(), "/sdk/emulator/emulator");
    let w = AndroidSdk { root: "/sdk".to_string(), host: HostOs::Windows };
    assert_eq!(w.adb(), "/sdk/platform-tools/adb.exe");
    assert_eq!(w.emulator(), "/sdk/emulator/emulator.exe");
}

#[test]
fn cmdline_tool_candidates_newest_first() {
    let s = linux_sdk("/sdk");
    let c = s.tool_candidates("sdkmanager", &strs(&["9.0", "latest", "11.0"]));
    assert_eq!(
        c,
        strs(&[
            "/sdk/cmdline-tools/latest/bin/sdkmanager",
            "/sdk/cmdline-tools/latest/bin/sdkmanager",
            "/sdk/cmdline-tools/9.0/bin/sdkmanager",
            "/sdk/cmdline-tools/11.0/bin/sdkmanager",
        ])
    );
    let w = AndroidSdk { root: "/sdk".to_string(), host: HostOs::Windows };
    assert_eq!(w.tool_candidates("avdmanager", &Vec::new()), strs(&["/sdk/cmdline-tools/latest/bin/avdmanager.bat"]));
}

#[test]
fn cmdline_tool_falls_back_to_latest_location() {
    let s = linux_sdk("/nonexistent-andremul-sdk");
    assert_eq!(s.sdkmanager(&strs(&["1.0"])), "/nonexistent-andremul-sdk/cmdline-tools/latest/bin/sdkmanager");
    assert_eq!(s.avdmanager(&Vec::new()), "/nonexistent-andremul-sdk/cmdline-tools/latest/bin/avdmanager");
    assert!(!s.has_cmdline_tools(&Vec::new()));
    assert!(!s.has_adb());
    assert!(!s.has_emulator());
    assert!(!s.root_exists());
}

#[test]
fn cmdline_tool_picks_newest_versioned_dir_that_has_it() {
    // Absolute entries replace the base when joined, so existing system
    // folders can stand in for versioned tool folders.
    let s = linux_sdk("/nonexistent-andremul-sdk");
    assert!(std::path::Path::new("/usr/bin/env").exists());
    let found = s.cmdline_tool("env", &strs(&["/nonexistent-andremul-b", "/usr", "/nonexistent-andremul-a"]));
    assert_eq!(found, "/usr/bin/env");
    let missing = s.cmdline_tool("env", &strs(&["/nonexistent-andremul-b"]));
    assert_eq!(missing, "/nonexistent-andremul-sdk/cmdline-tools/latest/bin/env");
    let root = linux_sdk("/");
    assert!(root.root_exists());
}

#[test]
fn default_roots_per_os() {
    assert_eq!(sdk::default_root_for(HostOs::MacOs, "/Users/a", &None), "/Users/a/Library/Android/sdk");
    assert_eq!(sdk::default_root_for(HostOs::Linux, "/home/a", &None), "/home/a/Android/Sdk");
    assert_eq!(sdk::default_root_for(HostOs::Windows, "/h", &Some("/local".to_string())), "/local/Android/Sdk");
    assert_eq!(sdk::default_root_for(HostOs::Windows, "/h", &None), "/h/AppData/Local/Android/Sdk");
    assert_eq!(sdk::default_root_for(HostOs::Linux, "", &None), "Android/Sdk");
}

#[test]
fn resolve_prefers_sdk_root_then_android_home() {
    let mut e = env(HostOs::Linux);
    e.android_sdk_root = Some("/a".to_string());
    e.android_home = Some("/b".to_string());
    assert_eq!(AndroidSdk::resolve(&e).root, "/a");
    e.android_sdk_root = Some(String::new());
    assert_eq!(AndroidSdk::resolve(&e).root, "/b");
    e.android_sdk_root = None;
    e.android_home = None;
    let r = AndroidSdk::resolve(&e);
    assert!(r.root.ends_with("Android/Sdk"));
    assert_eq!(r.host, HostOs::Linux);
}

#[test]
fn tool_env_points_tools_at_root_and_jdk() {
    let s = linux_sdk("/sdk");
    assert_eq!(
        s.tool_env(&None),
        vec![
            ("ANDROID_SDK_ROOT".to_string(), "/sdk".to_string()),
            ("ANDROID_HOME".to_string(), "/sdk".to_string()),
        ]
    );
    let with_java = s.tool_env(&Some("/jdk".to_string()));
    assert_eq!(with_java.len(), 3);
    assert_eq!(with_java[2], ("JAVA_HOME".to_string(), "/jdk".to_string()));
}

#[test]
fn java_probe_order() {
    let s = linux_sdk("/sdk");
    let probe = JavaProbe {
        home: "/h".to_string(),
        jdk17_entries: strs(&["a", "b"]),
        andremul_jdk_entries: strs(&["jdk-17"]),
    };
    let p = s.java_probes(&Some("/jh".to_string()), &probe);
    let expect = vec![
        ("/jh", "/jh"),
        ("/h/Library/Android/jdk17/b/Contents/Home/bin/java", "/h/Library/Android/jdk17/b/Contents/Home"),
        ("/h/Library/Android/jdk17/b/bin/java", "/h/Library/Android/jdk17/b"),
        ("/h/Library/Android/jdk17/a/Contents/Home/bin/java", "/h/Library/Android/jdk17/a/Contents/Home"),
        ("/h/Library/Android/jdk17/a/bin/java", "/h/Library/Android/jdk17/a"),
        ("/h/.andremul/jdk/jdk-17/Contents/Home/bin/java", "/h/.andremul/jdk/jdk-17/Contents/Home"),
        ("/h/.andremul/jdk/jdk-17/bin/java", "/h/.andremul/jdk/jdk-17"),
        ("/opt/android-studio/jbr/bin/java", "/opt/android-studio/jbr"),
        ("/h/android-studio/jbr/bin/java", "/h/android-studio/jbr"),
    ];
    let expect: Vec<(String, String)> = expect.iter().map(|(a, b)| (a.to_string(), b.to_string())).collect();
    assert_eq!(p, expect);
    assert_eq!(
        AndroidSdk::local_jdk_bases("/h"),
        strs(&["/h/Library/Android/jdk17", "/h/.andremul/jdk"])
    );
    assert_eq!(
        sdk::studio_jbr_candidates(HostOs::MacOs, "/h"),
        strs(&["/Applications/Android Studio.app/Contents/jbr/Contents/Home"])
    );
    assert_eq!(sdk::studio_jbr_candidates(HostOs::Windows, "/h").len(), 2);
}

#[test]
fn java_home_takes_existing_java_home_var() {
    let s = linux_sdk("/sdk");
    let empty = JavaProbe {
        home: "/nonexistent-andremul-home".to_string(),
        jdk17_entries: Vec::new(),
        andremul_jdk_entries: Vec::new(),
    };
    assert_eq!(s.java_home(&Some("/".to_string()), &empty), Some("/".to_string()));
    assert!(s.has_java(&Some("/".to_string()), &empty));
    let studio = std::path::Path::new("/opt/android-studio/jbr/bin/java").exists();
    assert_eq!(s.java_home(&Some("/nonexistent-andremul-jdk".to_string()), &empty).is_some(), studio);
    assert!(!s.is_ready(&Vec::new(), &None, &empty));
}

// ---- adb ----

#[test]
fn adb_device_list() {
    let o = out("List of devices attached\nemulator-5554\tdevice\nR58M\tunauthorized\n\n");
    assert_eq!(
        adb::devices(&o),
        vec![
            ("emulator-5554".to_string(), "device".to_string()),
            ("R58M".to_string(), "unauthorized".to_string())
        ]
    );
    assert_eq!(adb::devices(&out("")), Vec::<(String, String)>::new());
    assert_eq!(adb::devices(&out("emulator-5554 device\n")), Vec::<(String, String)>::new());
    assert_eq!(adb::devices(&out("header\nlonely\n")), Vec::<(String, String)>::new());
}

#[test]
fn adb_online_emulator_is_first_online_one() {
    let o = out("List of devices attached\nR58M\tdevice\nemulator-5554\toffline\nemulator-5556\tdevice\nemulator-5558\tdevice\n");
    assert_eq!(adb::online_emulator(&o), Some("emulator-5556".to_string()));
    assert_eq!(adb::online_emulator(&out("List of devices attached\n")), None);
}

#[test]
fn adb_boot_completed() {
    assert!(adb::boot_completed(&out("1\n")));
    assert!(adb::boot_completed(&out(" 1 ")));
    assert!(!adb::boot_completed(&out("0\n")));
    assert!(!adb::boot_completed(&out("")));
    assert!(!adb::boot_completed(&out("11")));
}

#[test]
fn adb_packages() {
    let o = out("package:com.example.pos\npackage:com.kds\n\n  \n");
    assert_eq!(adb::user_packages(&o), strs(&["com.example.pos", "com.kds"]));
    assert!(adb::is_installed(&o, "com.kds"));
    assert!(!adb::is_installed(&o, "com.other"));
    assert!(!adb::is_installed(&o, ""));
}

#[test]
fn adb_command_lines() {
    let serial = Some("emulator-5554".to_string());
    assert_eq!(adb::base(&serial, &["devices"]), strs(&["-s", "emulator-5554", "devices"]));
    assert_eq!(adb::base(&None, &["devices"]), strs(&["devices"]));
    assert_eq!(adb::boot_completed_args(&None), strs(&["shell", "getprop", "sys.boot_completed"]));
    assert_eq!(adb::user_packages_args(&serial), strs(&["-s", "emulator-5554", "shell", "pm", "list", "packages", "-3"]));
    assert_eq!(
        adb::launch(&None, "com.kds"),
        strs(&["shell", "monkey", "-p", "com.kds", "-c", "android.intent.category.LAUNCHER", "1"])
    );
    assert_eq!(adb::kill_emulator(&serial), strs(&["-s", "emulator-5554", "emu", "kill"]));
}

#[test]
fn adb_kiosk_hardening() {
    let cmds = adb::apply_kiosk(&Some("emulator-5554".to_string()));
    assert_eq!(cmds.len(), 5);
    assert_eq!(cmds[0], strs(&["-s", "emulator-5554", "shell", "settings", "put", "system", "screen_off_timeout", "2147483647"]));
    assert_eq!(cmds[1], strs(&["-s", "emulator-5554", "shell", "svc", "power", "stayon", "true"]));
    assert_eq!(cmds[2], strs(&["-s", "emulator-5554", "shell", "settings", "put", "secure", "screensaver_enabled", "0"]));
    assert_eq!(cmds[3], strs(&["-s", "emulator-5554", "shell", "settings", "put", "secure", "sleep_timeout", "-1"]));
    assert_eq!(cmds[4], strs(&["-s", "emulator-5554", "shell", "locksettings", "set-disabled", "true"]));
}

// ---- emulator ----

#[test]
fn emulator_launch_arguments() {
    assert_eq!(
        emulator::launch_args("Andremul", true),
        strs(&["-avd", "Andremul", "-no-snapshot", "-no-boot-anim", "-netdelay", "none", "-netspeed", "full", "-no-audio", "-no-window", "-gpu", "swiftshader_indirect"])
    );
    assert_eq!(
        emulator::launch_args("Andremul", false),
        strs(&["-avd", "Andremul", "-no-snapshot", "-no-boot-anim", "-netdelay", "none", "-netspeed", "full", "-no-audio", "-gpu", "auto"])
    );
}

#[test]
fn emulator_avd_list() {
    assert_eq!(emulator::list_avds(&out(" Pixel_7 \n\nAndremul\r\n")), strs(&["Pixel_7", "Andremul"]));
    assert_eq!(emulator::list_avds(&out("")), Vec::<String>::new());
    let sdk = linux_sdk("/sdk");
    assert!(emulator::list_avds_command(&sdk, false).is_none());
    assert_eq!(
        emulator::list_avds_command(&sdk, true),
        Some(("/sdk/emulator/emulator".to_string(), strs(&["-list-avds"])))
    );
}

// ---- scrcpy ----

#[test]
fn scrcpy_search_path() {
    let mut e = env(HostOs::Linux);
    assert_eq!(scrcpy::scrcpy_candidates(&e), strs(&["/opt/homebrew/bin/scrcpy", "/usr/local/bin/scrcpy"]));
    e.path = Some("/a:/b".to_string());
    assert_eq!(
        scrcpy::scrcpy_candidates(&e),
        strs(&["/opt/homebrew/bin/scrcpy", "/usr/local/bin/scrcpy", "/a/scrcpy", "/b/scrcpy"])
    );
    e.os = HostOs::Windows;
    e.path = Some("/a;/b".to_string());
    assert_eq!(scrcpy::scrcpy_candidates(&e)[3], "/b/scrcpy.exe");
}

#[test]
fn scrcpy_located_on_path() {
    let fixed = ["/opt/homebrew/bin/scrcpy", "/usr/local/bin/scrcpy"]
        .iter()
        .find(|p| std::path::Path::new(p).exists())
        .map(|p| p.to_string());
    let mut e = env(HostOs::Linux);
    e.path = Some("/nonexistent-andremul-a:/nonexistent-andremul-b".to_string());
    assert_eq!(scrcpy::locate(&e), fixed);
    assert_eq!(scrcpy::available(&e), fixed.is_some());
}

#[test]
fn scrcpy_arguments_and_environment() {
    assert_eq!(
        scrcpy::scrcpy_args(&Some("emulator-5554".to_string())),
        strs(&["--window-title=Andremul KDS Display", "--stay-awake", "--no-audio", "--disable-screensaver", "-s", "emulator-5554"])
    );
    assert_eq!(scrcpy::scrcpy_args(&None).len(), 4);
    let s = linux_sdk("/sdk");
    let e = scrcpy::scrcpy_env(&s, &None, "/usr/local/bin/scrcpy", &Some("/usr/bin".to_string()));
    assert_eq!(
        e,
        vec![
            ("ANDROID_SDK_ROOT".to_string(), "/sdk".to_string()),
            ("ANDROID_HOME".to_string(), "/sdk".to_string()),
            ("ADB".to_string(), "/sdk/platform-tools/adb".to_string()),
            ("PATH".to_string(), "/usr/local/bin:/usr/bin".to_string()),
        ]
    );
    let bare = scrcpy::scrcpy_env(&s, &None, "/", &None);
    assert_eq!(bare.len(), 3);
}

// ---- bootstrap ----

const REPO_XML: &str = "<remotePackage><url>commandlinetools-linux-9477386_latest.zip</url>\
<url>commandlinetools-mac-11076708_latest.zip</url>\
<url>commandlinetools-linux-11076708_latest.zip</url>\
<url>commandlinetools-linux-8512546_latest.zip</url>\
<url>commandlinetools-linux-x_latest.zip</url></remotePackage>";

#[test]
fn clt_url_names_newest_build() {
    assert_eq!(bootstrap::best_clt_build(REPO_XML, HostOs::Linux), 11076708);
    assert_eq!(
        bootstrap::discover_clt_url(REPO_XML, HostOs::Linux),
        Ok("https://dl.google.com/android/repository/commandlinetools-linux-11076708_latest.zip".to_string())
    );
    assert_eq!(
        bootstrap::discover_clt_url(REPO_XML, HostOs::Windows),
        Err("could not find command-line tools download URL".to_string())
    );
    assert_eq!(bootstrap::best_clt_build("", HostOs::MacOs), 0);
}

#[test]
fn avd_config_tweak() {
    let t = bootstrap::tweak_avd_config("hw.keyboard=no");
    assert_eq!(t, "hw.keyboard=no\nhw.initialOrientation=landscape\nshowDeviceFrame=no");
    assert_eq!(bootstrap::tweak_avd_config(&t), t);
    assert_eq!(
        bootstrap::tweak_avd_config(""),
        "\nhw.initialOrientation=landscape\nshowDeviceFrame=no\nhw.keyboard=yes"
    );
    assert_eq!(bootstrap::avd_config_path("/h", "Andremul"), "/h/.android/avd/Andremul.avd/config.ini");
}

#[test]
fn avd_creation_and_packages() {
    assert!(bootstrap::avd_present(&strs(&["Pixel", "Andremul"]), "Andremul"));
    assert!(!bootstrap::avd_present(&strs(&["Pixel"]), "Andremul"));
    let img = host::system_image(HostArch::Aarch64);
    assert_eq!(
        bootstrap::create_avd_args("Andremul", &img),
        strs(&["create", "avd", "-n", "Andremul", "-k", "system-images;android-34;google_apis_playstore;arm64-v8a", "--device", "10.1in WXGA (Tablet)", "--force"])
    );
    assert_eq!(
        bootstrap::sdk_packages(HostArch::Other),
        strs(&["platform-tools", "emulator", "platforms;android-34", "system-images;android-34;google_apis_playstore;x86_64"])
    );
    assert_eq!(bootstrap::license_answers(), "y\n".repeat(60));
    assert_eq!(bootstrap::repeat_str("ab", 0), "");
}

#[test]
fn download_plans() {
    let p = bootstrap::jdk_plan(HostOs::Windows, HostArch::Other, "/h");
    assert_eq!(p.dir, "/h/.andremul/jdk");
    assert_eq!(p.archive, "/h/.andremul/jdk/temurin.zip");
    assert!(p.zip);
    assert_eq!(p.url, host::temurin_url(HostOs::Windows, HostArch::Other));
    let q = bootstrap::jdk_plan(HostOs::Linux, HostArch::Aarch64, "/h");
    assert_eq!(q.archive, "/h/.andremul/jdk/temurin.tar.gz");
    assert!(!q.zip);
    let l = bootstrap::clt_layout("/sdk");
    assert_eq!(l.dir, "/sdk/cmdline-tools");
    assert_eq!(l.archive, "/sdk/cmdline-tools/clt.zip");
    assert_eq!(l.unzip_dir, "/sdk/cmdline-tools/_unzip");
    assert_eq!(l.unpacked, "/sdk/cmdline-tools/_unzip/cmdline-tools");
    assert_eq!(l.dest, "/sdk/cmdline-tools/latest");
    assert_eq!(l.bin, "/sdk/cmdline-tools/latest/bin");
}

#[test]
fn download_progress() {
    assert!(bootstrap::progress_due(25_000_001, 0));
    assert!(!bootstrap::progress_due(25_000_000, 0));
    assert_eq!(bootstrap::progress_line("JDK", 52_428_800, 104_857_600), "  JDK: 50 MB (50%)");
    assert_eq!(bootstrap::progress_line("JDK", 3_000_000, 0), "  JDK: 2 MB");
    assert_eq!(bootstrap::progress_done_line("JDK", 1_048_575), "  JDK: 0 MB ✓");
}

// ---- session ----

#[test]
fn target_package_is_trimmed_or_cleared() {
    let mut s = Session::new();
    s.set_target_package("  com.kds \n");
    assert_eq!(s.target_package, Some("com.kds".to_string()));
    s.set_target_package("   ");
    assert_eq!(s.target_package, None);
    s.set_serial("emulator-5554".to_string());
    assert_eq!(s.stop(), Some("emulator-5554".to_string()));
    assert_eq!(s.stop(), None);
    assert_eq!(s.serial, None);
}

#[test]
fn start_requests() {
    assert!(matches!(session::plan_start(false, true, Some("e".to_string())), StartPlan::NotReady));
    assert!(matches!(session::plan_start(true, false, Some("e".to_string())), StartPlan::Adopt(s) if s == "e"));
    assert!(matches!(session::plan_start(true, true, None), StartPlan::Launch { headless: true }));
    assert!(matches!(session::plan_start(true, false, None), StartPlan::Launch { headless: false }));
    assert_eq!(session::not_ready_message(), "SDK not ready — install components and create the AVD first.");
}

struct Scenario {
    device_after: usize,
    boot_after: usize,
    target: Option<&'static str>,
    installed: bool,
    scrcpy: bool,
    started: bool,
}

const PLAIN: Scenario =
    Scenario { device_after: 1, boot_after: 1, target: None, installed: false, scrcpy: false, started: false };

/// Drives the watch through a scenario; returns the last action, the poll
/// counts, the lines logged and the device-side steps taken, in order.
fn run_watch(sc: &Scenario) -> (WatchAction, usize, usize, Vec<String>, Vec<String>) {
    let mut w = BootWatch::new();
    let (mut device_polls, mut boot_polls) = (0, 0);
    let (mut logged, mut steps) = (Vec::new(), Vec::new());
    loop {
        let a = w.next_action();
        let e = match &a {
            WatchAction::PollDevice => {
                device_polls += 1;
                WatchEvent::Device(if device_polls >= sc.device_after { Some("emulator-5554".to_string()) } else { None })
            }
            WatchAction::Sleep(_) => WatchEvent::Slept,
            WatchAction::Announce(_) => WatchEvent::Done,
            WatchAction::PollBoot(_) => {
                boot_polls += 1;
                WatchEvent::Boot(boot_polls >= sc.boot_after)
            }
            WatchAction::Log(m) => {
                logged.push(m.clone());
                WatchEvent::Done
            }
            WatchAction::ApplyKiosk(s) => {
                steps.push(format!("kiosk {s}"));
                WatchEvent::Done
            }
            WatchAction::ReadTarget => WatchEvent::Target(sc.target.map(|t| t.to_string())),
            WatchAction::CheckInstalled(s, p) => {
                steps.push(format!("check {s} {p}"));
                WatchEvent::Installed(sc.installed)
            }
            WatchAction::Launch(s, p) => {
                steps.push(format!("launch {s} {p}"));
                WatchEvent::Done
            }
            WatchAction::CheckScrcpy => WatchEvent::ScrcpyFound(sc.scrcpy),
            WatchAction::StartScrcpy(s) => {
                steps.push(format!("scrcpy {s}"));
                WatchEvent::Started(sc.started)
            }
            WatchAction::Fail(_) | WatchAction::Ready(_) => return (a, device_polls, boot_polls, logged, steps),
        };
        w = w.advance(e);
    }
}

#[test]
fn boot_watch_runs() {
    match run_watch(&Scenario { device_after: 3, boot_after: 5, ..PLAIN }) {
        (WatchAction::Ready(s), 3, 5, _, _) => assert_eq!(s, "emulator-5554"),
        _ => panic!("expected a ready device after 3 device polls and 5 boot checks"),
    }
    match run_watch(&Scenario { device_after: usize::MAX, ..PLAIN }) {
        (WatchAction::Fail(m), 60, 0, logged, steps) => {
            assert_eq!(m, "No emulator device appeared.");
            assert!(logged.is_empty() && steps.is_empty());
        }
        _ => panic!("expected the device search to give up after 60 polls"),
    }
    match run_watch(&Scenario { boot_after: usize::MAX, ..PLAIN }) {
        (WatchAction::Fail(m), 1, 90, logged, steps) => {
            assert_eq!(m, "Boot did not complete in time.");
            assert!(logged.is_empty() && steps.is_empty());
        }
        _ => panic!("expected the boot wait to give up after 90 checks"),
    }
    assert!(matches!(BootWatch::new().next_action(), WatchAction::PollDevice));
    assert!(matches!(BootWatch::DeviceWait { polls: 1 }.next_action(), WatchAction::Sleep(1)));
    assert!(matches!(BootWatch::BootWait { serial: "e".to_string(), polls: 1 }.next_action(), WatchAction::Sleep(2)));
}

#[test]
fn boot_watch_sets_up_booted_device_in_order() {
    let sc = Scenario { target: Some("com.kds"), installed: true, scrcpy: true, started: true, ..PLAIN };
    let (last, _, _, logged, steps) = run_watch(&sc);
    assert!(matches!(last, WatchAction::Ready(s) if s == "emulator-5554"));
    assert_eq!(logged, vec!["✅ Boot complete.", "Launched com.kds.", "🖥️ Real-time display started (scrcpy)."]);
    assert_eq!(
        steps,
        vec![
            "kiosk emulator-5554",
            "check emulator-5554 com.kds",
            "launch emulator-5554 com.kds",
            "scrcpy emulator-5554"
        ]
    );
}

#[test]
fn auto_launch_outcomes() {
    let (_, _, _, logged, steps) =
        run_watch(&Scenario { target: Some("com.kds"), installed: false, scrcpy: true, started: false, ..PLAIN });
    assert_eq!(logged, vec!["✅ Boot complete.", "App com.kds not installed (install via Play Store or sideload)."]);
    assert_eq!(steps, vec!["kiosk emulator-5554", "check emulator-5554 com.kds", "scrcpy emulator-5554"]);
    let (last, _, _, logged, steps) = run_watch(&PLAIN);
    assert!(matches!(last, WatchAction::Ready(_)));
    assert_eq!(
        logged,
        vec![
            "✅ Boot complete.",
            "No auto-launch app set — emulator is up; pick one in Advanced if you want.",
            "scrcpy not installed — install it (`brew install scrcpy`) for a clean display window."
        ]
    );
    assert_eq!(steps, vec!["kiosk emulator-5554"]);
    assert_eq!(session::auto_launch_message(&AutoLaunch::Launch("com.kds".to_string())), "Launched com.kds.");
    assert_eq!(
        session::auto_launch_message(&AutoLaunch::NotInstalled("com.kds".to_string())),
        "App com.kds not installed (install via Play Store or sideload)."
    );
    assert_eq!(
        session::auto_launch_message(&AutoLaunch::NoTarget),
        "No auto-launch app set — emulator is up; pick one in Advanced if you want."
    );
}

#[test]
fn launch_requests() {
    let mut s = Session::new();
    assert_eq!(s.launch_request(), (None, "No app selected to launch.".to_string()));
    s.set_target_package("  com.kds ");
    assert_eq!(s.launch_request(), (Some("com.kds".to_string()), "Launched com.kds.".to_string()));
}

// ---- paths ----

#[test]
fn existence_probe_reports_first_existing() {
    let v = strs(&["/nonexistent-andremul-a", "/", "/usr"]);
    assert_eq!(paths::first_existing(&v), (Some(1), vec![false, true, false]));
    assert_eq!(paths::first_existing(&strs(&["/nonexistent-andremul-a"])), (None, vec![false]));
    assert_eq!(paths::first_existing(&Vec::new()), (None, vec![]));
    assert_eq!(paths::first_present(&vec![false, true, true]), Some(1));
    assert_eq!(paths::first_present(&vec![false, false]), None);
    let home = paths::home_or_empty();
    assert!(home.is_empty() || std::path::Path::new(&home).is_absolute());
}


#[test]
fn selections_over_existence_answers() {
    let s = linux_sdk("/sdk");
    let versions = strs(&["9.0", "11.0"]);
    // candidates: latest, 9.0, 11.0 (newest first in text order)
    assert_eq!(s.cmdline_tool_from("sdkmanager", &versions, &vec![true, true, true]), "/sdk/cmdline-tools/latest/bin/sdkmanager");
    assert_eq!(s.cmdline_tool_from("sdkmanager", &versions, &vec![false, false, true]), "/sdk/cmdline-tools/11.0/bin/sdkmanager");
    assert_eq!(s.cmdline_tool_from("sdkmanager", &versions, &vec![false, true, true]), "/sdk/cmdline-tools/9.0/bin/sdkmanager");
    assert_eq!(s.cmdline_tool_from("sdkmanager", &versions, &vec![false, false, false]), "/sdk/cmdline-tools/latest/bin/sdkmanager");
    assert_eq!(sdk::select_tool(&strs(&["a", "b"]), &vec![]), "a");

    let probe = JavaProbe { home: "/h".to_string(), jdk17_entries: strs(&["a"]), andremul_jdk_entries: Vec::new() };
    // probes: $JAVA_HOME, jdk17/a (bundle), jdk17/a (plain), two Studio runtimes
    let var = Some("/jh".to_string());
    assert_eq!(s.java_home_from(&var, &probe, &vec![true, true, true, true, true]), Some("/jh".to_string()));
    assert_eq!(s.java_home_from(&var, &probe, &vec![false, false, true, true, false]), Some("/h/Library/Android/jdk17/a".to_string()));
    assert_eq!(s.java_home_from(&var, &probe, &vec![false, true, true, false, false]), Some("/h/Library/Android/jdk17/a/Contents/Home".to_string()));
    assert_eq!(s.java_home_from(&var, &probe, &vec![false, false, false, false, true]), Some("/h/android-studio/jbr".to_string()));
    assert_eq!(s.java_home_from(&var, &probe, &vec![false; 5]), None);
    let other = linux_sdk("/elsewhere");
    assert_eq!(other.java_home_from(&var, &probe, &vec![false, false, true, false, false]), s.java_home_from(&var, &probe, &vec![false, false, true, false, false]));

    // each probe checks `java` under the home it offers (JAVA_HOME itself is checked as is)
    assert_eq!(
        sdk::probe_paths(&s.java_probes(&var, &probe)),
        strs(&[
            "/jh",
            "/h/Library/Android/jdk17/a/Contents/Home/bin/java",
            "/h/Library/Android/jdk17/a/bin/java",
            "/opt/android-studio/jbr/bin/java",
            "/h/android-studio/jbr/bin/java",
        ])
    );

    assert!(s.is_ready_from(true, true, &vec![false, true, false], &var, &probe, &vec![false, false, false, true, false]));
    assert!(!s.is_ready_from(true, true, &vec![false, false, false], &var, &probe, &vec![true; 5]));
    assert!(!s.is_ready_from(false, true, &vec![true; 3], &var, &probe, &vec![true; 5]));
    assert!(!s.is_ready_from(true, true, &vec![true; 3], &var, &probe, &vec![false; 5]));

    let mut e = env(HostOs::Linux);
    e.path = Some("/a:/b".to_string());
    assert_eq!(scrcpy::locate_from(&e, &vec![false, true, true, true]), Some("/usr/local/bin/scrcpy".to_string()));
    assert_eq!(scrcpy::locate_from(&e, &vec![false, false, false, true]), Some("/b/scrcpy".to_string()));
    assert_eq!(scrcpy::locate_from(&e, &vec![false; 4]), None);
}

#[test]
fn status_lines() {
    assert_eq!(bootstrap::download_start_line("JDK 17 (Temurin)"), "Downloading JDK 17 (Temurin)…");
    assert_eq!(session::launch_app_message(&Some("com.kds".to_string())), "Launched com.kds.");
    assert_eq!(session::launch_app_message(&None), "No app selected to launch.");
}
