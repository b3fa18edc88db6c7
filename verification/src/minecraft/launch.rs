use vstd::prelude::*;

use crate::ely::{self, Account};
use crate::minecraft::install::{
    resolve_libraries, resolve_state, under_libraries, Paths,
};
use crate::minecraft::manifest::{spec_rules_allow, rules_allow, ArgItem, VersionDetail};
use crate::mojang::ArgValue;
use crate::mojang::present_strings;
use crate::paths::{join, spec_join};
use crate::platform::{Host, TargetOs};
use crate::text::{self, dec, pair_views, spec_replace, spec_substitute, split_ws, views};
use crate::util::classpath_separator;

verus! {

/// The launch settings this launcher uses.
#[derive(Debug, Clone)]
pub struct Settings {
    pub java_path: String,
    pub max_memory: u32,
    pub jvm_args: String,
    pub fullscreen: bool,
    pub window_width: u32,
    pub window_height: u32,
}

/// Everything needed to build the game's command line.
pub struct LaunchSpec<'a> {
    pub paths: &'a Paths,
    pub detail: &'a VersionDetail,
    pub instance_dir: String,
    pub account: &'a Account,
    pub settings: &'a Settings,
    pub authlib_injector: Option<String>,
}

/// The program, arguments and directory to start the game with.
#[derive(Debug, Clone)]
pub struct BuiltCommand {
    pub program: String,
    pub args: Vec<String>,
    pub cwd: String,
}

/// The Java executable name: `javaw.exe` on Windows, `java` elsewhere.
pub fn java_exe(host: &Host) -> (res: &'static str)
    ensures
        res@ == (if host.os == TargetOs::Windows {
            "javaw.exe"@
        } else {
            "java"@
        }),
{
    if host.os == TargetOs::Windows {
        "javaw.exe"
    } else {
        "java"
    }
}

/// The strings one argument element contributes with these features.
pub open spec fn item_strings(item: ArgItem, features: Seq<(String, bool)>, host: Host) -> Seq<Seq<char>> {
    match item {
        ArgItem::Text(s) => seq![s@],
        ArgItem::Conditional { rules, value } => if spec_rules_allow(rules, features, host) {
            match value {
                ArgValue::Text(s) => seq![s@],
                ArgValue::List(v) => present_strings(v@),
                ArgValue::Missing => Seq::empty(),
            }
        } else {
            Seq::empty()
        },
        ArgItem::Other => Seq::empty(),
    }
}

/// The strings of an argument list, element by element.
pub open spec fn spec_collect_arguments(items: Seq<ArgItem>, features: Seq<(String, bool)>, host: Host) -> Seq<Seq<char>>
    decreases items.len(),
{
    if items.len() == 0 {
        Seq::empty()
    } else {
        spec_collect_arguments(items.drop_last(), features, host) + item_strings(items.last(), features, host)
    }
}

fn push_list(out: &mut Vec<String>, v: &Vec<Option<String>>)
    ensures
        views(final(out)@) == views(old(out)@) + present_strings(v@),
{
    let n = v.len();
    let mut i: usize = 0;
    let ghost start = views(out@);
    while i < n
        invariant
            n == v@.len(),
            i <= n,
            views(out@) == start + present_strings(v@.take(i as int)),
        decreases n - i,
    {
        assert(v@.take(i as int + 1).drop_last() =~= v@.take(i as int));
        match &v[i] {
            Some(s) => {
                let ghost before = out@;
                out.push(s.clone());
                assert(views(out@) =~= views(before).push(s@));
                assert(start + present_strings(v@.take(i as int + 1)) =~= (start
                    + present_strings(v@.take(i as int))).push(s@));
            },
            None => {},
        }
        i = i + 1;
    }
    assert(v@.take(n as int) =~= v@);
}

/// The argument strings that apply with these features.
pub fn collect_arguments(items: &Vec<ArgItem>, features: &Vec<(String, bool)>, host: &Host) -> (res: Vec<String>)
    ensures
        views(res@) == spec_collect_arguments(items@, features@, *host),
{
    let mut out: Vec<String> = Vec::new();
    let n = items.len();
    let mut i: usize = 0;
    while i < n
        invariant
            n == items@.len(),
            i <= n,
            views(out@) == spec_collect_arguments(items@.take(i as int), features@, *host),
        decreases n - i,
    {
        assert(items@.take(i as int + 1).drop_last() =~= items@.take(i as int));
        let ghost before = views(out@);
        match &items[i] {
            ArgItem::Text(s) => {
                let ghost b = out@;
                out.push(s.clone());
                assert(views(out@) =~= views(b).push(s@));
            },
            ArgItem::Conditional { rules, value } => {
                if rules_allow(rules, features, host) {
                    match value {
                        ArgValue::Text(s) => {
                            let ghost b = out@;
                            out.push(s.clone());
                            assert(views(out@) =~= views(b).push(s@));
                        },
                        ArgValue::List(v) => {
                            push_list(&mut out, v);
                        },
                        ArgValue::Missing => {},
                    }
                }
            },
            ArgItem::Other => {},
        }
        assert(views(out@) =~= before + item_strings(items@[i as int], features@, *host));
        i = i + 1;
    }
    assert(items@.take(n as int) =~= items@);
    out
}


/// The asset index name of a version: its asset index id, else its `assets`
/// field, else `legacy`.
pub open spec fn spec_index_name(detail: VersionDetail) -> Seq<char> {
    match detail.asset_index {
        Some(a) => a.id@,
        None => match detail.assets {
            Some(s) => s@,
            None => "legacy"@,
        },
    }
}

/// The placeholders of the argument templates and their values, in the order
/// they are substituted.
pub open spec fn spec_placeholders(
    paths: Paths,
    detail: VersionDetail,
    instance_dir: Seq<char>,
    account: Account,
    settings: Settings,
    classpath: Seq<char>,
    natives_dir: Seq<char>,
    host: Host,
    launcher_version: Seq<char>,
) -> Seq<(Seq<char>, Seq<char>)> {
    let assets = paths.spec_assets();
    let index = spec_index_name(detail);
    let uuid = spec_replace(account.uuid@, "-"@, ""@);
    seq![
        ("auth_player_name"@, account.username@),
        ("version_name"@, detail.id@),
        ("game_directory"@, instance_dir),
        ("assets_root"@, assets),
        ("game_assets"@, spec_join(spec_join(assets, "virtual"@, paths.sep), index, paths.sep)),
        ("assets_index_name"@, index),
        ("auth_uuid"@, uuid),
        ("auth_access_token"@, if account.access_token@.len() == 0 {
            "0"@
        } else {
            account.access_token@
        }),
        ("auth_session"@, "token:"@ + account.access_token@ + ":"@ + uuid),
        ("user_type"@, if account.kind@ == "ely"@ {
            "mojang"@
        } else {
            "legacy"@
        }),
        ("version_type"@, detail.kind@),
        ("user_properties"@, "{}"@),
        ("classpath"@, classpath),
        ("natives_directory"@, natives_dir),
        ("launcher_name"@, "SlintLauncher"@),
        ("launcher_version"@, launcher_version),
        ("classpath_separator"@, crate::paths::spec_classpath_sep(host)),
        ("library_directory"@, paths.spec_libraries()),
        ("resolution_width"@, dec(settings.window_width as nat)),
        ("resolution_height"@, dec(settings.window_height as nat)),
        ("clientid"@, ""@),
        ("auth_xuid"@, ""@),
    ]
}

fn push_pair(vars: &mut Vec<(String, String)>, k: &str, v: String)
    ensures
        pair_views(final(vars)@) == pair_views(old(vars)@).push((k@, v@)),
{
    vars.push((text::owned(k), v));
    assert(pair_views(final(vars)@) =~= pair_views(old(vars)@).push((k@, v@)));
}

/// The placeholder values for a launch.
pub fn placeholder_map(spec: &LaunchSpec, classpath: &str, natives_dir: &str, host: &Host, launcher_version: &str) -> (res: Vec<(String, String)>)
    ensures
        pair_views(res@) == spec_placeholders(
            *spec.paths,
            *spec.detail,
            spec.instance_dir@,
            *spec.account,
            *spec.settings,
            classpath@,
            natives_dir@,
            *host,
            launcher_version@,
        ),
{
    let paths = spec.paths;
    let detail = spec.detail;
    let account = spec.account;
    let assets = paths.assets();
    let index: String = match &detail.asset_index {
        Some(a) => a.id.clone(),
        None => match &detail.assets {
            Some(s) => s.clone(),
            None => text::owned("legacy"),
        },
    };
    proof {
        reveal_strlit("-");
    }
    let uuid = text::replace(account.uuid.as_str(), "-", "");
    let mut map: Vec<(String, String)> = Vec::new();
    assert(pair_views(map@) =~= Seq::empty());
    push_pair(&mut map, "auth_player_name", account.username.clone());
    push_pair(&mut map, "version_name", detail.id.clone());
    push_pair(&mut map, "game_directory", spec.instance_dir.clone());
    push_pair(&mut map, "assets_root", assets.clone());
    let virt = join(assets.as_str(), "virtual", paths.sep);
    push_pair(&mut map, "game_assets", join(virt.as_str(), index.as_str(), paths.sep));
    push_pair(&mut map, "assets_index_name", index.clone());
    push_pair(&mut map, "auth_uuid", uuid.clone());
    let token = if account.access_token.as_str().is_empty() {
        text::owned("0")
    } else {
        account.access_token.clone()
    };
    push_pair(&mut map, "auth_access_token", token);
    let mut session = text::concat3("token:", account.access_token.as_str(), ":");
    text::push_str(&mut session, uuid.as_str());
    push_pair(&mut map, "auth_session", session);
    let user_type = if account.is_ely() {
        text::owned("mojang")
    } else {
        text::owned("legacy")
    };
    push_pair(&mut map, "user_type", user_type);
    push_pair(&mut map, "version_type", detail.kind.clone());
    push_pair(&mut map, "user_properties", text::owned("{}"));
    push_pair(&mut map, "classpath", text::owned(classpath));
    push_pair(&mut map, "natives_directory", text::owned(natives_dir));
    push_pair(&mut map, "launcher_name", text::owned("SlintLauncher"));
    push_pair(&mut map, "launcher_version", text::owned(launcher_version));
    push_pair(&mut map, "classpath_separator", text::owned(classpath_separator(host)));
    push_pair(&mut map, "library_directory", paths.libraries());
    push_pair(&mut map, "resolution_width", text::u64_to_string(spec.settings.window_width as u64));
    push_pair(&mut map, "resolution_height", text::u64_to_string(spec.settings.window_height as u64));
    push_pair(&mut map, "clientid", text::owned(""));
    push_pair(&mut map, "auth_xuid", text::owned(""));
    map
}


/// The entries whose presence flag is set, in order.
pub open spec fn kept(entries: Seq<Seq<char>>, present: Seq<bool>) -> Seq<Seq<char>>
    decreases entries.len(),
{
    if entries.len() == 0 || present.len() < entries.len() {
        Seq::empty()
    } else {
        let rest = kept(entries.drop_last(), present);
        if present[entries.len() - 1] {
            rest.push(entries.last())
        } else {
            rest
        }
    }
}

/// The classpath of a launch: the resolved library jars that are present,
/// then the version jar, joined with the host's separator.
pub open spec fn spec_launch_classpath(paths: Paths, detail: VersionDetail, host: Host, present: Seq<bool>) -> Seq<char> {
    text::seq_join(
        kept(under_libraries(resolve_state(detail.libraries@, paths, host).0, paths), present).push(
            paths.spec_version_jar(detail.id@),
        ),
        crate::paths::spec_classpath_sep(host),
    )
}

/// The features offered to rules when launching.
pub open spec fn launch_features(fullscreen: bool) -> Seq<(Seq<char>, bool)> {
    seq![
        ("is_demo_user"@, false),
        ("has_custom_resolution"@, !fullscreen),
        ("has_quick_plays_support"@, false),
        ("is_quick_play_singleplayer"@, false),
        ("is_quick_play_multiplayer"@, false),
        ("is_quick_play_realms"@, false),
    ]
}

/// Feature pairs as plain values.
pub open spec fn feature_views(v: Seq<(String, bool)>) -> Seq<(Seq<char>, bool)> {
    v.map_values(|p: (String, bool)| (p.0@, p.1))
}

/// Each string with its placeholders substituted.
pub open spec fn subst_each(v: Seq<Seq<char>>, vars: Seq<(Seq<char>, Seq<char>)>) -> Seq<Seq<char>> {
    v.map_values(|a: Seq<char>| spec_substitute(a, vars))
}

/// The authlib-injector agent arguments for an Ely.by account with the jar.
pub open spec fn spec_agent(account: Account, agent_jar: Option<Seq<char>>) -> Seq<Seq<char>> {
    if account.kind@ == "ely"@ {
        match agent_jar {
            Some(jar) => seq![
                "-javaagent:"@ + jar + "="@ + ely::API_ROOT@,
                "-Dauthlibinjector.side=client"@,
                "-Dauthlibinjector.noShowServerName"@,
            ],
            None => Seq::empty(),
        }
    } else {
        Seq::empty()
    }
}

/// The heap flags (`-Xmx` the memory but at least 512 MB, `-Xms` a quarter of
/// it within 256..=2048 MB) and the user's JVM flags.
pub open spec fn spec_memory_args(settings: Settings) -> Seq<Seq<char>> {
    let mm = settings.max_memory;
    let xmx: nat = if mm > 512 {
        mm as nat
    } else {
        512
    };
    let xms: nat = if mm / 4 < 256 {
        256
    } else if mm / 4 > 2048 {
        2048
    } else {
        (mm / 4) as nat
    };
    seq!["-Xmx"@ + dec(xmx) + "M"@, "-Xms"@ + dec(xms) + "M"@] + split_ws(settings.jvm_args@)
}

/// `-XstartOnFirstThread` on macOS.
pub open spec fn spec_mac_args(host: Host) -> Seq<Seq<char>> {
    if host.os == TargetOs::MacOs {
        seq!["-XstartOnFirstThread"@]
    } else {
        Seq::empty()
    }
}

/// The version's JVM arguments, or the library path and classpath when its
/// list is missing or empty.
pub open spec fn spec_jvm_args(
    detail: VersionDetail,
    features: Seq<(String, bool)>,
    vars: Seq<(Seq<char>, Seq<char>)>,
    classpath: Seq<char>,
    natives: Seq<char>,
    host: Host,
) -> Seq<Seq<char>> {
    match detail.arguments {
        Some(a) => if a.jvm@.len() > 0 {
            subst_each(spec_collect_arguments(a.jvm@, features, host), vars)
        } else {
            seq!["-Djava.library.path="@ + natives, "-cp"@, classpath]
        },
        None => seq!["-Djava.library.path="@ + natives, "-cp"@, classpath],
    }
}

/// The game argument templates: the version's list, else its legacy string.
pub open spec fn spec_game_templates(detail: VersionDetail, features: Seq<(String, bool)>, host: Host) -> Seq<Seq<char>> {
    let legacy = match detail.minecraft_arguments {
        Some(l) => split_ws(l@),
        None => Seq::empty(),
    };
    match detail.arguments {
        Some(a) => if a.game@.len() > 0 {
            spec_collect_arguments(a.game@, features, host)
        } else {
            legacy
        },
        None => legacy,
    }
}

/// The window arguments after `args`: `--fullscreen` when asked for and not
/// present, else the size when no `--width` is present.
pub open spec fn spec_window_args(settings: Settings, args: Seq<Seq<char>>) -> Seq<Seq<char>> {
    if settings.fullscreen {
        if args.contains("--fullscreen"@) {
            Seq::empty()
        } else {
            seq!["--fullscreen"@]
        }
    } else if args.contains("--width"@) {
        Seq::empty()
    } else {
        seq![
            "--width"@,
            dec(settings.window_width as nat),
            "--height"@,
            dec(settings.window_height as nat),
        ]
    }
}

/// The arguments of the launch command: the agent, memory, macOS and JVM
/// arguments; a classpath when none was given yet; the main class; the game
/// arguments; and the window arguments.
pub open spec fn spec_command_args(
    detail: VersionDetail,
    account: Account,
    settings: Settings,
    agent_jar: Option<Seq<char>>,
    features: Seq<(String, bool)>,
    vars: Seq<(Seq<char>, Seq<char>)>,
    classpath: Seq<char>,
    natives: Seq<char>,
    host: Host,
) -> Seq<Seq<char>> {
    let s1 = spec_agent(account, agent_jar) + spec_memory_args(settings) + spec_mac_args(host)
        + spec_jvm_args(detail, features, vars, classpath, natives, host);
    let cp = if s1.contains("-cp"@) || s1.contains("-classpath"@) {
        Seq::empty()
    } else {
        seq!["-cp"@, classpath]
    };
    let s3 = s1 + cp + seq![detail.main_class@] + subst_each(
        spec_game_templates(detail, features, host),
        vars,
    );
    s3 + spec_window_args(settings, s3)
}

fn substitute_into(out: &mut Vec<String>, items: &Vec<String>, vars: &Vec<(String, String)>)
    ensures
        views(final(out)@) == views(old(out)@) + subst_each(views(items@), pair_views(vars@)),
{
    let n = items.len();
    let mut i: usize = 0;
    let ghost start = views(out@);
    while i < n
        invariant
            n == items@.len(),
            i <= n,
            views(out@) == start + subst_each(views(items@).take(i as int), pair_views(vars@)),
        decreases n - i,
    {
        let t = text::substitute(items[i].as_str(), vars);
        let ghost before = views(out@);
        out.push(t);
        assert(views(out@) =~= before.push(t@));
        assert(subst_each(views(items@).take(i as int + 1), pair_views(vars@)) =~= subst_each(
            views(items@).take(i as int),
            pair_views(vars@),
        ).push(t@));
        assert(start + subst_each(views(items@).take(i as int + 1), pair_views(vars@)) =~= (start
            + subst_each(views(items@).take(i as int), pair_views(vars@))).push(t@));
        i = i + 1;
    }
    assert(views(items@).take(n as int) =~= views(items@));
}

fn push_text(out: &mut Vec<String>, t: String)
    ensures
        views(final(out)@) == views(old(out)@).push(t@),
{
    out.push(t);
    assert(views(final(out)@) =~= views(old(out)@).push(t@));
}

fn push_feature(v: &mut Vec<(String, bool)>, k: &str, b: bool)
    ensures
        feature_views(final(v)@) == feature_views(old(v)@).push((k@, b)),
{
    v.push((text::owned(k), b));
    assert(feature_views(final(v)@) =~= feature_views(old(v)@).push((k@, b)));
}

/// The classpath of a launch; `present[i]` says whether the `i`-th resolved
/// library jar is on disk.
pub fn launch_classpath(paths: &Paths, detail: &VersionDetail, host: &Host, present: &Vec<bool>) -> (res: String)
    requires
        present@.len() == resolve_state(detail.libraries@, *paths, *host).0.len(),
    ensures
        res@ == spec_launch_classpath(*paths, *detail, *host, present@),
{
    let resolved = resolve_libraries(paths, detail, host);
    let entries = &resolved.classpath;
    let ghost all = views(entries@);
    assert(all.len() == entries@.len());
    let mut out: Vec<String> = Vec::new();
    let n = entries.len();
    let mut i: usize = 0;
    while i < n
        invariant
            n == entries@.len(),
            all == views(entries@),
            present@.len() == n,
            i <= n,
            views(out@) == kept(all.take(i as int), present@),
        decreases n - i,
    {
        assert(all.take(i as int + 1).drop_last() =~= all.take(i as int));
        if present[i] {
            let ghost before = views(out@);
            out.push(entries[i].clone());
            assert(views(out@) =~= before.push(all[i as int]));
        }
        i = i + 1;
    }
    assert(all.take(n as int) =~= all);
    let ghost libs = views(out@);
    out.push(paths.version_jar(detail.id.as_str()));
    assert(views(out@) =~= libs.push(paths.spec_version_jar(detail.id@)));
    text::join(&out, classpath_separator(host))
}

/// The message when no Java is found.
pub open spec fn java_missing_message() -> Seq<char> {
    "Java не найдена. Укажите путь в настройках. / Java not found — set the path in settings."@
}

/// Builds the game command. `java` is the Java found (if any); `present` says
/// which resolved library jars are on disk. Errors: no Java; an Ely.by account
/// without authlib-injector.
#[verifier::rlimit(80)]
#[verifier::spinoff_prover]
pub fn build_command(
    spec: &LaunchSpec,
    java: Option<String>,
    present: &Vec<bool>,
    host: &Host,
    launcher_version: &str,
) -> (res: Result<BuiltCommand, String>)
    requires
        present@.len() == resolve_state(spec.detail.libraries@, *spec.paths, *host).0.len(),
    ensures
        match java {
            None => res matches Err(m) && m@ == java_missing_message(),
            Some(j) => if spec.account.kind@ == "ely"@ && spec.authlib_injector is None {
                res matches Err(m) && m@ == "authlib-injector is required for Ely.by accounts but is missing"@
            } else {
                res matches Ok(cmd) && cmd.program == j && cmd.cwd == spec.instance_dir && exists|
                    f: Seq<(String, bool)>,
                |
                    feature_views(f) == launch_features(spec.settings.fullscreen) && views(cmd.args@)
                        == spec_command_args(
                        *spec.detail,
                        *spec.account,
                        *spec.settings,
                        match spec.authlib_injector {
                            Some(s) => Some(s@),
                            None => None,
                        },
                        f,
                        spec_placeholders(
                            *spec.paths,
                            *spec.detail,
                            spec.instance_dir@,
                            *spec.account,
                            *spec.settings,
                            spec_launch_classpath(*spec.paths, *spec.detail, *host, present@),
                            spec_join(spec.paths.spec_version_dir(spec.detail.id@), "natives"@, spec.paths.sep),
                            *host,
                            launcher_version@,
                        ),
                        spec_launch_classpath(*spec.paths, *spec.detail, *host, present@),
                        spec_join(spec.paths.spec_version_dir(spec.detail.id@), "natives"@, spec.paths.sep),
                        *host,
                    )
            },
        },
{
    let java = match java {
        Some(j) => j,
        None => {
            return Err(text::owned("Java не найдена. Укажите путь в настройках. / Java not found — set the path in settings."));
        },
    };
    let detail = spec.detail;
    let settings = spec.settings;
    let classpath = launch_classpath(spec.paths, detail, host, present);
    let natives = spec.paths.natives(detail.id.as_str());
    let map = placeholder_map(spec, classpath.as_str(), natives.as_str(), host, launcher_version);
    let mut features: Vec<(String, bool)> = Vec::new();
    assert(feature_views(features@) =~= Seq::empty());
    push_feature(&mut features, "is_demo_user", false);
    push_feature(&mut features, "has_custom_resolution", !settings.fullscreen);
    push_feature(&mut features, "has_quick_plays_support", false);
    push_feature(&mut features, "is_quick_play_singleplayer", false);
    push_feature(&mut features, "is_quick_play_multiplayer", false);
    push_feature(&mut features, "is_quick_play_realms", false);
    let mut args: Vec<String> = Vec::new();
    assert(views(args@) =~= Seq::empty());
    if spec.account.is_ely() {
        match &spec.authlib_injector {
            Some(jar) => {
                let mut a = text::concat3("-javaagent:", jar.as_str(), "=");
                text::push_str(&mut a, ely::API_ROOT);
                push_text(&mut args, a);
                push_text(&mut args, text::owned("-Dauthlibinjector.side=client"));
                push_text(&mut args, text::owned("-Dauthlibinjector.noShowServerName"));
            },
            None => {
                return Err(text::owned("authlib-injector is required for Ely.by accounts but is missing"));
            },
        }
    }
    let ghost after_agent = views(args@);
    let ghost inj = spec.authlib_injector;
    let ghost jar_view = if inj is Some {
        Some(inj->0@)
    } else {
        None
    };
    assert(after_agent =~= spec_agent(*spec.account, jar_view));
    let mm = settings.max_memory;
    let xmx: u32 = if mm > 512 {
        mm
    } else {
        512
    };
    let xms: u32 = if mm / 4 < 256 {
        256
    } else if mm / 4 > 2048 {
        2048
    } else {
        mm / 4
    };
    push_text(&mut args, text::concat3("-Xmx", text::u64_to_string(xmx as u64).as_str(), "M"));
    push_text(&mut args, text::concat3("-Xms", text::u64_to_string(xms as u64).as_str(), "M"));
    let mut extra = text::split_whitespace(settings.jvm_args.as_str());
    assert(views(extra@) =~= split_ws(settings.jvm_args@));
    let ghost before_extra = views(args@);
    args.append(&mut extra);
    assert(views(args@) =~= before_extra + split_ws(settings.jvm_args@));
    assert(views(args@) =~= after_agent + spec_memory_args(*settings));
    let ghost after_mem = views(args@);
    if host.os == TargetOs::MacOs {
        push_text(&mut args, text::owned("-XstartOnFirstThread"));
    }
    assert(views(args@) =~= after_mem + spec_mac_args(*host));
    let ghost after_mac = views(args@);
    let use_list = match &detail.arguments {
        Some(a) => a.jvm.len() > 0,
        None => false,
    };
    if use_list {
        match &detail.arguments {
            Some(a) => {
                let jvm = collect_arguments(&a.jvm, &features, host);
                substitute_into(&mut args, &jvm, &map);
            },
            None => {},
        }
    } else {
        push_text(&mut args, text::concat2("-Djava.library.path=", natives.as_str()));
        push_text(&mut args, text::owned("-cp"));
        push_text(&mut args, classpath.clone());
    }
    let ghost s1 = views(args@);
    assert(s1 =~= after_mac + spec_jvm_args(*detail, features@, pair_views(map@), classpath@, natives@, *host));
    if !(text::contains_str(&args, "-cp") || text::contains_str(&args, "-classpath")) {
        push_text(&mut args, text::owned("-cp"));
        push_text(&mut args, classpath.clone());
    }
    push_text(&mut args, detail.main_class.clone());
    let ghost s2 = views(args@);
    assert(s2 =~= s1 + (if s1.contains("-cp"@) || s1.contains("-classpath"@) {
        Seq::<Seq<char>>::empty()
    } else {
        seq!["-cp"@, classpath@]
    }) + seq![detail.main_class@]);
    let game_list = match &detail.arguments {
        Some(a) => a.game.len() > 0,
        None => false,
    };
    let game: Vec<String> = if game_list {
        match &detail.arguments {
            Some(a) => collect_arguments(&a.game, &features, host),
            None => Vec::new(),
        }
    } else {
        match &detail.minecraft_arguments {
            Some(l) => text::split_whitespace(l.as_str()),
            None => Vec::new(),
        }
    };
    proof {
        let legacy = detail.minecraft_arguments;
        if !game_list {
            if legacy is Some {
                assert(views(game@) =~= split_ws(legacy->0@));
            } else {
                assert(views(game@) =~= Seq::<Seq<char>>::empty());
            }
        }
    }
    substitute_into(&mut args, &game, &map);
    let ghost s3 = views(args@);
    assert(views(game@) == spec_game_templates(*detail, features@, *host));
    assert(s3 =~= s2 + subst_each(views(game@), pair_views(map@)));
    if settings.fullscreen {
        if !text::contains_str(&args, "--fullscreen") {
            push_text(&mut args, text::owned("--fullscreen"));
        }
    } else if !text::contains_str(&args, "--width") {
        push_text(&mut args, text::owned("--width"));
        push_text(&mut args, text::u64_to_string(settings.window_width as u64));
        push_text(&mut args, text::owned("--height"));
        push_text(&mut args, text::u64_to_string(settings.window_height as u64));
    }
    proof {
        let f = features@;
        let full = spec_command_args(
            *detail,
            *spec.account,
            *settings,
            jar_view,
            f,
            pair_views(map@),
            classpath@,
            natives@,
            *host,
        );
        assert(views(args@) =~= s3 + spec_window_args(*settings, s3));
        assert(views(args@) =~= full);
    }
    Ok(BuiltCommand { program: java, args, cwd: spec.instance_dir.clone() })
}


/// The first line of `java -version`'s error output, trimmed (empty when there is none).
pub fn java_version_string(stderr: &str) -> (res: String)
    ensures
        res@ == text::spec_trim(
            match crate::java::spec_first_line(stderr@) {
                Some(l) => l,
                None => ""@,
            },
        ),
{
    match crate::java::first_line(stderr) {
        Some(l) => text::trim(l.as_str()),
        None => text::trim(""),
    }
}

/// The directories whose subdirectories may hold Java installations.
pub open spec fn spec_java_roots(host: Host) -> Seq<Seq<char>> {
    match host.os {
        TargetOs::Windows => seq![
            "C:\\Program Files\\Java"@,
            "C:\\Program Files\\Eclipse Adoptium"@,
            "C:\\Program Files\\Microsoft\\jdk"@,
            "C:\\Program Files (x86)\\Java"@,
        ],
        TargetOs::MacOs => seq!["/Library/Java/JavaVirtualMachines"@],
        TargetOs::Linux => seq!["/usr/lib/jvm"@, "/usr/java"@, "/opt/java"@],
    }
}

/// The directories whose subdirectories may hold Java installations.
pub fn java_roots(host: &Host) -> (res: Vec<String>)
    ensures
        views(res@) == spec_java_roots(*host),
{
    let mut out: Vec<String> = Vec::new();
    assert(views(out@) =~= Seq::empty());
    match host.os {
        TargetOs::Windows => {
            push_text(&mut out, text::owned("C:\\Program Files\\Java"));
            push_text(&mut out, text::owned("C:\\Program Files\\Eclipse Adoptium"));
            push_text(&mut out, text::owned("C:\\Program Files\\Microsoft\\jdk"));
            push_text(&mut out, text::owned("C:\\Program Files (x86)\\Java"));
        },
        TargetOs::MacOs => {
            push_text(&mut out, text::owned("/Library/Java/JavaVirtualMachines"));
        },
        TargetOs::Linux => {
            push_text(&mut out, text::owned("/usr/lib/jvm"));
            push_text(&mut out, text::owned("/usr/java"));
            push_text(&mut out, text::owned("/opt/java"));
        },
    }
    out
}

/// The Java executable of an installation directory: under `bin`, and under
/// `Contents/Home/bin` (macOS bundles).
pub fn install_java_paths(entry: &str, host: &Host, sep: char) -> (res: (String, String))
    ensures
        res.0@ == spec_join(spec_join(entry@, "bin"@, sep), (if host.os == TargetOs::Windows {
            "javaw.exe"@
        } else {
            "java"@
        }), sep),
        res.1@ == spec_join(spec_join(entry@, "Contents/Home/bin"@, sep), (if host.os == TargetOs::Windows {
            "javaw.exe"@
        } else {
            "java"@
        }), sep),
{
    let exe = java_exe(host);
    let b = join(entry, "bin", sep);
    let m = join(entry, "Contents/Home/bin", sep);
    (join(b.as_str(), exe, sep), join(m.as_str(), exe, sep))
}

/// The Java found by a search: the first direct candidate that exists; else,
/// among installation directories (each with its `bin` executable and its
/// bundle executable and whether they exist), the last one that has Java,
/// using its `bin` executable when that exists.
pub open spec fn spec_detect_java(direct: Seq<(String, bool)>, installs: Seq<(String, bool, String, bool)>) -> Option<Seq<char>>
    decreases direct.len() + installs.len(),
{
    if direct.len() > 0 {
        if direct[0].1 {
            Some(direct[0].0@)
        } else {
            spec_detect_java(direct.drop_first(), installs)
        }
    } else if installs.len() == 0 {
        None
    } else {
        let last = installs.last();
        if last.1 {
            Some(last.0@)
        } else if last.3 {
            Some(last.2@)
        } else {
            spec_detect_java(direct, installs.drop_last())
        }
    }
}

/// Picks the Java to use from the probed candidates.
pub fn detect_java(direct: &Vec<(String, bool)>, installs: &Vec<(String, bool, String, bool)>) -> (res: Option<String>)
    ensures
        match res {
            Some(p) => spec_detect_java(direct@, installs@) == Some(p@),
            None => spec_detect_java(direct@, installs@) is None,
        },
{
    let n = direct.len();
    let mut i: usize = 0;
    assert(direct@.skip(0) =~= direct@);
    while i < n
        invariant
            n == direct@.len(),
            i <= n,
            spec_detect_java(direct@, installs@) == spec_detect_java(direct@.skip(i as int), installs@),
        decreases n - i,
    {
        assert(direct@.skip(i as int).drop_first() =~= direct@.skip(i as int + 1));
        if direct[i].1 {
            return Some(direct[i].0.clone());
        }
        i = i + 1;
    }
    assert(direct@.skip(n as int) =~= Seq::<(String, bool)>::empty());
    let mut k = installs.len();
    assert(installs@.take(k as int) =~= installs@);
    while k > 0
        invariant
            k <= installs@.len(),
            spec_detect_java(direct@, installs@) == spec_detect_java(Seq::<(String, bool)>::empty(), installs@.take(k as int)),
        decreases k,
    {
        let e = &installs[k - 1];
        assert(installs@.take(k as int).drop_last() =~= installs@.take(k as int - 1));
        if e.1 {
            return Some(e.0.clone());
        }
        if e.3 {
            return Some(e.2.clone());
        }
        k = k - 1;
    }
    None
}


/// The direct places to look for Java, in order: the configured path
/// (trimmed, when not empty), `$JAVA_HOME/bin`, then each `PATH` directory.
pub open spec fn spec_detect_candidates(
    host: Host,
    configured: Seq<char>,
    java_home: Option<Seq<char>>,
    path_dirs: Seq<Seq<char>>,
    sep: char,
) -> Seq<Seq<char>> {
    let exe = if host.os == TargetOs::Windows {
        "javaw.exe"@
    } else {
        "java"@
    };
    let c = text::spec_trim(configured);
    let first = if c.len() > 0 {
        seq![c]
    } else {
        Seq::empty()
    };
    let home = match java_home {
        Some(h) => seq![spec_join(spec_join(h, "bin"@, sep), exe, sep)],
        None => Seq::empty(),
    };
    first + home + path_dirs.map_values(|d: Seq<char>| spec_join(d, exe, sep))
}

/// The direct places to look for Java, in order.
pub fn detect_candidates(
    host: &Host,
    configured: &str,
    java_home: Option<&str>,
    path_dirs: &Vec<String>,
    sep: char,
) -> (res: Vec<String>)
    ensures
        views(res@) == spec_detect_candidates(
            *host,
            configured@,
            match java_home {
                Some(h) => Some(h@),
                None => None,
            },
            views(path_dirs@),
            sep,
        ),
{
    let mut out: Vec<String> = Vec::new();
    assert(views(out@) =~= Seq::empty());
    let c = text::trim(configured);
    if !c.as_str().is_empty() {
        push_text(&mut out, c);
    }
    let exe = java_exe(host);
    if let Some(h) = java_home {
        let b = join(h, "bin", sep);
        push_text(&mut out, join(b.as_str(), exe, sep));
    }
    let ghost head = views(out@);
    let ghost ex = exe@;
    let n = path_dirs.len();
    let mut i: usize = 0;
    while i < n
        invariant
            n == path_dirs@.len(),
            i <= n,
            exe@ == ex,
            views(out@) == head + views(path_dirs@).take(i as int).map_values(|d: Seq<char>| spec_join(d, ex, sep)),
        decreases n - i,
    {
        push_text(&mut out, join(path_dirs[i].as_str(), exe, sep));
        assert(views(path_dirs@).take(i as int + 1).map_values(|d: Seq<char>| spec_join(d, ex, sep))
            =~= views(path_dirs@).take(i as int).map_values(|d: Seq<char>| spec_join(d, ex, sep)).push(spec_join(path_dirs@[i as int]@, ex, sep)));
        i = i + 1;
    }
    assert(views(path_dirs@).take(n as int) =~= views(path_dirs@));
    out
}

} // verus!
