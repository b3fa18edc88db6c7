use vstd::prelude::*;

use crate::config::{Account, AccountKind, Config, Instance};
use crate::error::Error;
use crate::install::{classpath, last_segment, rsplit_last, spec_classpath};
use crate::mojang::{argument_strings, spec_argument_strings, VersionMeta};
use crate::paths::{
    assets_dir, classpath_sep, instance_game_dir, join, libraries_dir, natives_dir,
    spec_assets_dir, spec_classpath_sep, spec_instance_game_dir, spec_join, spec_libraries_dir,
    spec_natives_dir, DataDir,
};
use crate::platform::Host;
use crate::rules::Features;
use crate::text::{self, dec, first_binding, lemma_first_binding_at, lemma_first_binding_none, law_placeholder_takes_first_binding, pair_views, placeholder, spec_replace, spec_substitute, split_ws, views};

verus! {

/// The Java command that starts the game.
#[derive(Debug, Clone)]
pub struct LaunchPlan {
    pub java: String,
    pub args: Vec<String>,
    pub cwd: String,
}

/// The major Java version a version asks for, when it asks for one above zero.
pub open spec fn required_java(meta: VersionMeta) -> Option<u32> {
    match meta.java_version {
        Some(j) => if j.major_version > 0 {
            Some(j.major_version)
        } else {
            None
        },
        None => None,
    }
}

/// Refuses a Java whose major version `have` is known and below what the
/// version asks for.
pub fn check_java(meta: &VersionMeta, have: Option<u32>) -> (res: Result<(), Error>)
    ensures
        res is Err <==> (required_java(*meta) matches Some(r) && have matches Some(h) && h < r),
        res matches Err(e) ==> e matches Error::Message(m) && m@ == "нужна Java "@ + dec(
            required_java(*meta)->0 as nat,
        ) + "+, найдена "@ + dec(have->0 as nat),
{
    if let Some(j) = &meta.java_version {
        let required = j.major_version;
        if required > 0 {
            if let Some(h) = have {
                if h < required {
                    let r = text::u64_to_string(required as u64);
                    let hs = text::u64_to_string(h as u64);
                    let a = text::concat3("нужна Java ", r.as_str(), "+, найдена ");
                    return Err(Error::msg(text::concat2(a.as_str(), hs.as_str())));
                }
            }
        }
    }
    Ok(())
}

/// The asset index name: the asset index id, else the `assets` field, else `legacy`.
pub open spec fn spec_assets_index_name(meta: VersionMeta) -> Seq<char> {
    match meta.asset_index {
        Some(a) => a.id@,
        None => match meta.assets {
            Some(s) => s@,
            None => "legacy"@,
        },
    }
}

/// The file name of the logging configuration named by a version: the last
/// segment of its URL, else its path.
pub open spec fn spec_log_config_name(meta: VersionMeta) -> Option<Seq<char>> {
    match meta.logging {
        Some(l) => match l.client {
            Some(c) => match c.file.url {
                Some(u) => Some(last_segment(u@)),
                None => match c.file.path {
                    Some(p) => Some(p@),
                    None => None,
                },
            },
            None => None,
        },
        None => None,
    }
}

/// The `user_type` of an account.
pub open spec fn spec_user_type(a: Account) -> Seq<char> {
    match a.kind {
        AccountKind::Offline => "legacy"@,
        AccountKind::Microsoft => "msa"@,
    }
}

/// The placeholders of the game's argument templates and their values, in
/// the order they are substituted.
pub open spec fn spec_launch_vars(
    cfg: Config,
    instance: Instance,
    account: Account,
    meta: VersionMeta,
    d: DataDir,
    host: Host,
    jar_exists: bool,
    launcher_version: Seq<char>,
) -> Seq<(Seq<char>, Seq<char>)> {
    let assets = spec_assets_dir(d);
    let base = seq![
        ("auth_player_name"@, account.name@),
        ("version_name"@, meta.id@),
        ("game_directory"@, spec_instance_game_dir(d, instance.id@)),
        ("assets_root"@, assets),
        ("game_assets"@, assets),
        ("assets_index_name"@, spec_assets_index_name(meta)),
        ("auth_uuid"@, spec_replace(account.uuid@, "-"@, ""@)),
        ("auth_access_token"@, if account.access_token@.len() == 0 {
            "0"@
        } else {
            account.access_token@
        }),
        ("auth_session"@, account.access_token@),
        ("user_type"@, spec_user_type(account)),
        ("version_type"@, meta.kind@),
        ("natives_directory"@, spec_natives_dir(d, meta.id@)),
        ("launcher_name"@, "SlintLauncher"@),
        ("launcher_version"@, launcher_version),
        ("classpath"@, spec_classpath(meta, d, host, jar_exists, spec_classpath_sep(host))),
        ("user_properties"@, "{}"@),
        ("clientid"@, "slintlauncher"@),
        ("auth_xuid"@, account.xuid@),
        ("resolution_width"@, dec(cfg.width as nat)),
        ("resolution_height"@, dec(cfg.height as nat)),
        ("library_directory"@, spec_libraries_dir(d)),
        ("classpath_separator"@, spec_classpath_sep(host)),
    ];
    match spec_log_config_name(meta) {
        Some(name) => base.push(
            ("path"@, spec_join(spec_join(assets, "log_configs"@, d.sep), name, d.sep)),
        ),
        None => base,
    }
}

/// Each string with its placeholders substituted.
pub open spec fn subst_each(v: Seq<Seq<char>>, vars: Seq<(Seq<char>, Seq<char>)>) -> Seq<Seq<char>> {
    v.map_values(|a: Seq<char>| spec_substitute(a, vars))
}

/// The features the launcher offers when starting the game.
pub open spec fn launch_features() -> Features {
    Features { demo: false, custom_resolution: true }
}

/// The Java arguments: heap flags (`-Xms` a quarter of the memory but at least
/// 512 MB, `-Xmx` the memory), the user's JVM flags, then the version's JVM
/// arguments, or for a version without an argument list the library path,
/// launcher brand and version, and classpath; then the logging argument when
/// the version has a logging configuration; then the main class; then the
/// game arguments (from the argument list, else the legacy string); then
/// `--fullscreen` when asked for. `None` when the version has neither an
/// argument list nor legacy arguments.
pub open spec fn spec_launch_args(
    cfg: Config,
    instance: Instance,
    account: Account,
    meta: VersionMeta,
    d: DataDir,
    host: Host,
    jar_exists: bool,
    launcher_version: Seq<char>,
) -> Option<Seq<Seq<char>>> {
    let vars = spec_launch_vars(cfg, instance, account, meta, d, host, jar_exists, launcher_version);
    let ram: u32 = if instance.ram_override >= 1024 {
        instance.ram_override
    } else {
        cfg.ram_mb
    };
    let xms: nat = if ram / 4 > 512 {
        (ram / 4) as nat
    } else {
        512
    };
    let head = seq!["-Xms"@ + dec(xms) + "M"@, "-Xmx"@ + dec(ram as nat) + "M"@] + split_ws(
        cfg.jvm_args@,
    );
    let natives = spec_natives_dir(d, meta.id@);
    let cp = spec_classpath(meta, d, host, jar_exists, spec_classpath_sep(host));
    let jvm = match meta.arguments {
        Some(a) => subst_each(spec_argument_strings(a.jvm@, launch_features(), host), vars),
        None => seq![
            "-Djava.library.path="@ + natives,
            "-Dminecraft.launcher.brand=SlintLauncher"@,
            "-Dminecraft.launcher.version="@ + launcher_version,
            "-cp"@,
            cp,
        ],
    };
    let logging = match meta.logging {
        Some(l) => match l.client {
            Some(c) => if spec_log_config_name(meta) is Some {
                seq![spec_substitute(c.argument@, vars)]
            } else {
                Seq::empty()
            },
            None => Seq::empty(),
        },
        None => Seq::empty(),
    };
    let game = match meta.arguments {
        Some(a) => Some(subst_each(spec_argument_strings(a.game@, launch_features(), host), vars)),
        None => match meta.minecraft_arguments {
            Some(legacy) => Some(subst_each(split_ws(legacy@), vars)),
            None => None,
        },
    };
    match game {
        Some(g) => Some(
            head + jvm + logging + seq![meta.main_class@] + g + (if cfg.fullscreen {
                seq!["--fullscreen"@]
            } else {
                Seq::empty()
            }),
        ),
        None => None,
    }
}

/// What each placeholder of the game's argument templates stands for: the
/// player's name, the version id, the instance's game directory, the assets
/// directory, the asset index name (the version's asset index id, else its
/// `assets` field, else `legacy`), the account's UUID without hyphens, its
/// access token (`0` when it has none), the account type (`legacy` offline,
/// `msa` for Microsoft), the version type, the natives and libraries
/// directories, the launcher's name and version, the classpath and its
/// separator, the window size, and `path` for the logging configuration
/// file when the version names one.
pub proof fn law_launch_placeholders(
    cfg: Config,
    instance: Instance,
    account: Account,
    meta: VersionMeta,
    d: DataDir,
    host: Host,
    jar_exists: bool,
    launcher_version: Seq<char>,
)
    ensures
        ({
            let vars = spec_launch_vars(cfg, instance, account, meta, d, host, jar_exists, launcher_version);
            &&& first_binding(vars, "auth_player_name"@) == Some(account.name@)
            &&& first_binding(vars, "version_name"@) == Some(meta.id@)
            &&& first_binding(vars, "game_directory"@) == Some(spec_instance_game_dir(d, instance.id@))
            &&& first_binding(vars, "assets_root"@) == Some(spec_assets_dir(d))
            &&& first_binding(vars, "game_assets"@) == Some(spec_assets_dir(d))
            &&& first_binding(vars, "assets_index_name"@) == Some(match meta.asset_index {
                Some(a) => a.id@,
                None => match meta.assets {
                    Some(s) => s@,
                    None => "legacy"@,
                },
            })
            &&& first_binding(vars, "auth_uuid"@) == Some(spec_replace(account.uuid@, "-"@, ""@))
            &&& first_binding(vars, "auth_access_token"@) == Some(if account.access_token@.len() == 0 {
                "0"@
            } else {
                account.access_token@
            })
            &&& first_binding(vars, "auth_session"@) == Some(account.access_token@)
            &&& first_binding(vars, "user_type"@) == Some(match account.kind {
                AccountKind::Offline => "legacy"@,
                AccountKind::Microsoft => "msa"@,
            })
            &&& first_binding(vars, "version_type"@) == Some(meta.kind@)
            &&& first_binding(vars, "natives_directory"@) == Some(spec_natives_dir(d, meta.id@))
            &&& first_binding(vars, "launcher_name"@) == Some("SlintLauncher"@)
            &&& first_binding(vars, "launcher_version"@) == Some(launcher_version)
            &&& first_binding(vars, "classpath"@) == Some(spec_classpath(meta, d, host, jar_exists, spec_classpath_sep(host)))
            &&& first_binding(vars, "user_properties"@) == Some("{}"@)
            &&& first_binding(vars, "clientid"@) == Some("slintlauncher"@)
            &&& first_binding(vars, "auth_xuid"@) == Some(account.xuid@)
            &&& first_binding(vars, "resolution_width"@) == Some(dec(cfg.width as nat))
            &&& first_binding(vars, "resolution_height"@) == Some(dec(cfg.height as nat))
            &&& first_binding(vars, "library_directory"@) == Some(spec_libraries_dir(d))
            &&& first_binding(vars, "classpath_separator"@) == Some(spec_classpath_sep(host))
            &&& first_binding(vars, "path"@) == match spec_log_config_name(meta) {
                Some(name) => Some(spec_join(spec_join(spec_assets_dir(d), "log_configs"@, d.sep), name, d.sep)),
                None => None,
            }
        }),
{
    let vars = spec_launch_vars(cfg, instance, account, meta, d, host, jar_exists, launcher_version);
    reveal_strlit("auth_player_name");
    reveal_strlit("version_name");
    reveal_strlit("game_directory");
    reveal_strlit("assets_root");
    reveal_strlit("game_assets");
    reveal_strlit("assets_index_name");
    reveal_strlit("auth_uuid");
    reveal_strlit("auth_access_token");
    reveal_strlit("auth_session");
    reveal_strlit("user_type");
    reveal_strlit("version_type");
    reveal_strlit("natives_directory");
    reveal_strlit("launcher_name");
    reveal_strlit("launcher_version");
    reveal_strlit("classpath");
    reveal_strlit("user_properties");
    reveal_strlit("clientid");
    reveal_strlit("auth_xuid");
    reveal_strlit("resolution_width");
    reveal_strlit("resolution_height");
    reveal_strlit("library_directory");
    reveal_strlit("classpath_separator");
    reveal_strlit("path");
    assert(vars[0].0 == "auth_player_name"@);
    assert(vars[1].0 == "version_name"@);
    assert(vars[2].0 == "game_directory"@);
    assert(vars[3].0 == "assets_root"@);
    assert(vars[4].0 == "game_assets"@);
    assert(vars[5].0 == "assets_index_name"@);
    assert(vars[6].0 == "auth_uuid"@);
    assert(vars[7].0 == "auth_access_token"@);
    assert(vars[8].0 == "auth_session"@);
    assert(vars[9].0 == "user_type"@);
    assert(vars[10].0 == "version_type"@);
    assert(vars[11].0 == "natives_directory"@);
    assert(vars[12].0 == "launcher_name"@);
    assert(vars[13].0 == "launcher_version"@);
    assert(vars[14].0 == "classpath"@);
    assert(vars[15].0 == "user_properties"@);
    assert(vars[16].0 == "clientid"@);
    assert(vars[17].0 == "auth_xuid"@);
    assert(vars[18].0 == "resolution_width"@);
    assert(vars[19].0 == "resolution_height"@);
    assert(vars[20].0 == "library_directory"@);
    assert(vars[21].0 == "classpath_separator"@);
    lemma_first_binding_at(vars, "auth_player_name"@, 0);
    assert(forall|i: int| 0 <= i < 1 ==> (#[trigger] vars[i]).0 != "version_name"@);
    lemma_first_binding_at(vars, "version_name"@, 1);
    assert(forall|i: int| 0 <= i < 2 ==> (#[trigger] vars[i]).0 != "game_directory"@);
    lemma_first_binding_at(vars, "game_directory"@, 2);
    assert(forall|i: int| 0 <= i < 3 ==> (#[trigger] vars[i]).0 != "assets_root"@);
    lemma_first_binding_at(vars, "assets_root"@, 3);
    assert("assets_root"@[0] != "game_assets"@[0]);
    assert(forall|i: int| 0 <= i < 4 ==> (#[trigger] vars[i]).0 != "game_assets"@);
    lemma_first_binding_at(vars, "game_assets"@, 4);
    assert(forall|i: int| 0 <= i < 5 ==> (#[trigger] vars[i]).0 != "assets_index_name"@);
    lemma_first_binding_at(vars, "assets_index_name"@, 5);
    assert(forall|i: int| 0 <= i < 6 ==> (#[trigger] vars[i]).0 != "auth_uuid"@);
    lemma_first_binding_at(vars, "auth_uuid"@, 6);
    assert("assets_index_name"@[1] != "auth_access_token"@[1]);
    assert(forall|i: int| 0 <= i < 7 ==> (#[trigger] vars[i]).0 != "auth_access_token"@);
    lemma_first_binding_at(vars, "auth_access_token"@, 7);
    assert("version_name"@[0] != "auth_session"@[0]);
    assert(forall|i: int| 0 <= i < 8 ==> (#[trigger] vars[i]).0 != "auth_session"@);
    lemma_first_binding_at(vars, "auth_session"@, 8);
    assert("auth_uuid"@[0] != "user_type"@[0]);
    assert(forall|i: int| 0 <= i < 9 ==> (#[trigger] vars[i]).0 != "user_type"@);
    lemma_first_binding_at(vars, "user_type"@, 9);
    assert("version_name"@[8] != "version_type"@[8]);
    assert("auth_session"@[0] != "version_type"@[0]);
    assert(forall|i: int| 0 <= i < 10 ==> (#[trigger] vars[i]).0 != "version_type"@);
    lemma_first_binding_at(vars, "version_type"@, 10);
    assert("assets_index_name"@[0] != "natives_directory"@[0]);
    assert("auth_access_token"@[0] != "natives_directory"@[0]);
    assert(forall|i: int| 0 <= i < 11 ==> (#[trigger] vars[i]).0 != "natives_directory"@);
    lemma_first_binding_at(vars, "natives_directory"@, 11);
    assert(forall|i: int| 0 <= i < 12 ==> (#[trigger] vars[i]).0 != "launcher_name"@);
    lemma_first_binding_at(vars, "launcher_name"@, 12);
    assert("auth_player_name"@[0] != "launcher_version"@[0]);
    assert(forall|i: int| 0 <= i < 13 ==> (#[trigger] vars[i]).0 != "launcher_version"@);
    lemma_first_binding_at(vars, "launcher_version"@, 13);
    assert("auth_uuid"@[0] != "classpath"@[0]);
    assert("user_type"@[0] != "classpath"@[0]);
    assert(forall|i: int| 0 <= i < 14 ==> (#[trigger] vars[i]).0 != "classpath"@);
    lemma_first_binding_at(vars, "classpath"@, 14);
    assert(forall|i: int| 0 <= i < 15 ==> (#[trigger] vars[i]).0 != "user_properties"@);
    lemma_first_binding_at(vars, "user_properties"@, 15);
    assert(forall|i: int| 0 <= i < 16 ==> (#[trigger] vars[i]).0 != "clientid"@);
    lemma_first_binding_at(vars, "clientid"@, 16);
    assert("auth_uuid"@[5] != "auth_xuid"@[5]);
    assert("user_type"@[0] != "auth_xuid"@[0]);
    assert("classpath"@[0] != "auth_xuid"@[0]);
    assert(forall|i: int| 0 <= i < 17 ==> (#[trigger] vars[i]).0 != "auth_xuid"@);
    lemma_first_binding_at(vars, "auth_xuid"@, 17);
    assert("auth_player_name"@[0] != "resolution_width"@[0]);
    assert("launcher_version"@[0] != "resolution_width"@[0]);
    assert(forall|i: int| 0 <= i < 18 ==> (#[trigger] vars[i]).0 != "resolution_width"@);
    lemma_first_binding_at(vars, "resolution_width"@, 18);
    assert("assets_index_name"@[0] != "resolution_height"@[0]);
    assert("auth_access_token"@[0] != "resolution_height"@[0]);
    assert("natives_directory"@[0] != "resolution_height"@[0]);
    assert(forall|i: int| 0 <= i < 19 ==> (#[trigger] vars[i]).0 != "resolution_height"@);
    lemma_first_binding_at(vars, "resolution_height"@, 19);
    assert("assets_index_name"@[0] != "library_directory"@[0]);
    assert("auth_access_token"@[0] != "library_directory"@[0]);
    assert("natives_directory"@[0] != "library_directory"@[0]);
    assert("resolution_height"@[0] != "library_directory"@[0]);
    assert(forall|i: int| 0 <= i < 20 ==> (#[trigger] vars[i]).0 != "library_directory"@);
    lemma_first_binding_at(vars, "library_directory"@, 20);
    assert(forall|i: int| 0 <= i < 21 ==> (#[trigger] vars[i]).0 != "classpath_separator"@);
    lemma_first_binding_at(vars, "classpath_separator"@, 21);
    match spec_log_config_name(meta) {
        Some(name) => {
            lemma_first_binding_at(vars, "path"@, 22);
        },
        None => {
            lemma_first_binding_none(vars, "path"@);
        },
    }
}

/// The game argument `${assets_index_name}` becomes the asset index id, else
/// the `assets` field, else `legacy`, when no placeholder value holds a `$`.
pub proof fn law_asset_index_argument(
    cfg: Config,
    instance: Instance,
    account: Account,
    meta: VersionMeta,
    d: DataDir,
    host: Host,
    jar_exists: bool,
    launcher_version: Seq<char>,
)
    requires
        forall|i: int|
            0 <= i < spec_launch_vars(cfg, instance, account, meta, d, host, jar_exists, launcher_version).len()
                ==> !(#[trigger] spec_launch_vars(cfg, instance, account, meta, d, host, jar_exists, launcher_version)[i]).1.contains('$'),
    ensures
        spec_substitute(
            "${assets_index_name}"@,
            spec_launch_vars(cfg, instance, account, meta, d, host, jar_exists, launcher_version),
        ) == match meta.asset_index {
            Some(a) => a.id@,
            None => match meta.assets {
                Some(s) => s@,
                None => "legacy"@,
            },
        },
{
    let vars = spec_launch_vars(cfg, instance, account, meta, d, host, jar_exists, launcher_version);
    let key = "assets_index_name"@;
    reveal_strlit("assets_index_name");
    reveal_strlit("${assets_index_name}");
    reveal_strlit("${");
    reveal_strlit("}");
    assert(placeholder(key) =~= "${assets_index_name}"@);
    assert(!key.contains('$'));
    assert(!key.contains('}'));
    law_launch_placeholders(cfg, instance, account, meta, d, host, jar_exists, launcher_version);
    law_placeholder_takes_first_binding(vars, key);
}

fn push_pair(vars: &mut Vec<(String, String)>, k: &str, v: String)
    ensures
        pair_views(final(vars)@) == pair_views(old(vars)@).push((k@, v@)),
{
    vars.push((text::owned(k), v));
    assert(pair_views(final(vars)@) =~= pair_views(old(vars)@).push((k@, v@)));
}

/// The placeholder values for launching `meta`.
pub fn launch_vars(
    cfg: &Config,
    instance: &Instance,
    account: &Account,
    meta: &VersionMeta,
    d: &DataDir,
    host: &Host,
    jar_exists: bool,
    launcher_version: &str,
) -> (res: Vec<(String, String)>)
    ensures
        pair_views(res@) == spec_launch_vars(
            *cfg,
            *instance,
            *account,
            *meta,
            *d,
            *host,
            jar_exists,
            launcher_version@,
        ),
{
    let assets = assets_dir(d);
    let mut vars: Vec<(String, String)> = Vec::new();
    assert(pair_views(vars@) =~= Seq::empty());
    push_pair(&mut vars, "auth_player_name", account.name.clone());
    push_pair(&mut vars, "version_name", meta.id.clone());
    push_pair(&mut vars, "game_directory", instance_game_dir(d, instance.id.as_str()));
    push_pair(&mut vars, "assets_root", assets.clone());
    push_pair(&mut vars, "game_assets", assets.clone());
    let index_name = match &meta.asset_index {
        Some(a) => a.id.clone(),
        None => match &meta.assets {
            Some(s) => s.clone(),
            None => text::owned("legacy"),
        },
    };
    push_pair(&mut vars, "assets_index_name", index_name);
    proof {
        reveal_strlit("-");
        reveal_strlit("");
    }
    push_pair(&mut vars, "auth_uuid", text::replace(account.uuid.as_str(), "-", ""));
    let token = if account.access_token.as_str().is_empty() {
        text::owned("0")
    } else {
        account.access_token.clone()
    };
    push_pair(&mut vars, "auth_access_token", token);
    push_pair(&mut vars, "auth_session", account.access_token.clone());
    push_pair(&mut vars, "user_type", text::owned(account.user_type()));
    push_pair(&mut vars, "version_type", meta.kind.clone());
    push_pair(&mut vars, "natives_directory", natives_dir(d, meta.id.as_str()));
    push_pair(&mut vars, "launcher_name", text::owned("SlintLauncher"));
    push_pair(&mut vars, "launcher_version", text::owned(launcher_version));
    push_pair(&mut vars, "classpath", classpath(meta, d, host, jar_exists));
    push_pair(&mut vars, "user_properties", text::owned("{}"));
    push_pair(&mut vars, "clientid", text::owned("slintlauncher"));
    push_pair(&mut vars, "auth_xuid", account.xuid.clone());
    push_pair(&mut vars, "resolution_width", text::u64_to_string(cfg.width as u64));
    push_pair(&mut vars, "resolution_height", text::u64_to_string(cfg.height as u64));
    push_pair(&mut vars, "library_directory", libraries_dir(d));
    push_pair(&mut vars, "classpath_separator", text::owned(classpath_sep(host)));
    let ghost base = pair_views(vars@);
    assert(base.len() == 22);
    assert(base[0] == ("auth_player_name"@, account.name@));
    assert(base[1] == ("version_name"@, meta.id@));
    assert(base[2] == ("game_directory"@, spec_instance_game_dir(*d, instance.id@)));
    assert(base[3] == ("assets_root"@, spec_assets_dir(*d)));
    assert(base[4] == ("game_assets"@, spec_assets_dir(*d)));
    assert(base[5] == ("assets_index_name"@, spec_assets_index_name(*meta)));
    assert(base[6] == ("auth_uuid"@, spec_replace(account.uuid@, "-"@, ""@)));
    assert(base[7] == ("auth_access_token"@, if account.access_token@.len() == 0 {
            "0"@
        } else {
            account.access_token@
        }));
    assert(base[8] == ("auth_session"@, account.access_token@));
    assert(base[9] == ("user_type"@, spec_user_type(*account)));
    assert(base[10] == ("version_type"@, meta.kind@));
    assert(base[11] == ("natives_directory"@, spec_natives_dir(*d, meta.id@)));
    assert(base[12] == ("launcher_name"@, "SlintLauncher"@));
    assert(base[13] == ("launcher_version"@, launcher_version@));
    assert(base[14] == ("classpath"@, spec_classpath(*meta, *d, *host, jar_exists, spec_classpath_sep(*host))));
    assert(base[15] == ("user_properties"@, "{}"@));
    assert(base[16] == ("clientid"@, "slintlauncher"@));
    assert(base[17] == ("auth_xuid"@, account.xuid@));
    assert(base[18] == ("resolution_width"@, dec(cfg.width as nat)));
    assert(base[19] == ("resolution_height"@, dec(cfg.height as nat)));
    assert(base[20] == ("library_directory"@, spec_libraries_dir(*d)));
    assert(base[21] == ("classpath_separator"@, spec_classpath_sep(*host)));

    let name: Option<String> = match &meta.logging {
        Some(l) => match &l.client {
            Some(c) => match &c.file.url {
                Some(u) => Some(rsplit_last(u.as_str())),
                None => match &c.file.path {
                    Some(p) => Some(p.clone()),
                    None => None,
                },
            },
            None => None,
        },
        None => None,
    };
    if let Some(name) = name {
        let dir = join(assets.as_str(), "log_configs", d.sep);
        let ghost b = vars@;
        push_pair(&mut vars, "path", join(dir.as_str(), name.as_str(), d.sep));
        assert(pair_views(vars@) =~= pair_views(b).push(pair_views(vars@).last()));
    }
    vars
}


fn substitute_all(out: &mut Vec<String>, items: &Vec<String>, vars: &Vec<(String, String)>)
    ensures
        views(final(out)@) == views(old(out)@) + subst_each(views(items@), pair_views(vars@)),
{
    let n = items.len();
    let mut i: usize = 0;
    let ghost start = views(out@);
    while i < n
        invariant
            n == items@.len(),
            i <= n,
            views(out@) == start + subst_each(views(items@).take(i as int), pair_views(vars@)),
        decreases n - i,
    {
        let t = text::substitute(items[i].as_str(), vars);
        let ghost before = views(out@);
        out.push(t);
        assert(views(out@) =~= before.push(t@));
        assert(subst_each(views(items@).take(i as int + 1), pair_views(vars@)) =~= subst_each(
            views(items@).take(i as int),
            pair_views(vars@),
        ).push(t@));
        assert(start + subst_each(views(items@).take(i as int + 1), pair_views(vars@)) =~= (start
            + subst_each(views(items@).take(i as int), pair_views(vars@))).push(t@));
        i = i + 1;
    }
    assert(views(items@).take(n as int) =~= views(items@));
}

fn push_text(out: &mut Vec<String>, t: String)
    ensures
        views(final(out)@) == views(old(out)@).push(t@),
{
    out.push(t);
    assert(views(final(out)@) =~= views(old(out)@).push(t@));
}

/// Builds the Java command line for an instance; `java` is the Java executable
/// found, `jar_exists` whether the version's jar is on disk. An error when the
/// version has no launch arguments at all.
#[verifier::rlimit(60)]
#[verifier::spinoff_prover]
pub fn prepare(
    cfg: &Config,
    instance: &Instance,
    account: &Account,
    meta: &VersionMeta,
    java: String,
    d: &DataDir,
    host: &Host,
    jar_exists: bool,
    launcher_version: &str,
) -> (res: Result<LaunchPlan, Error>)
    ensures
        match spec_launch_args(*cfg, *instance, *account, *meta, *d, *host, jar_exists, launcher_version@) {
            Some(args) => res matches Ok(plan) && views(plan.args@) == args && plan.java == java
                && plan.cwd@ == spec_instance_game_dir(*d, instance.id@),
            None => res matches Err(e) && e matches Error::Message(m) && m@
                == "в манифесте версии нет аргументов запуска"@,
        },
{
    let vars = launch_vars(cfg, instance, account, meta, d, host, jar_exists, launcher_version);
    let features = Features { demo: false, custom_resolution: true };
    let ram = instance.ram_mb(cfg.ram_mb);
    let xms: u32 = if ram / 4 > 512 {
        ram / 4
    } else {
        512
    };
    let mut args: Vec<String> = Vec::new();
    assert(views(args@) =~= Seq::empty());
    let a1 = text::concat3("-Xms", text::u64_to_string(xms as u64).as_str(), "M");
    push_text(&mut args, a1);
    let a2 = text::concat3("-Xmx", text::u64_to_string(ram as u64).as_str(), "M");
    push_text(&mut args, a2);
    let extra = text::split_whitespace(cfg.jvm_args.as_str());
    assert(views(extra@) =~= split_ws(cfg.jvm_args@));
    let ghost before = views(args@);
    let mut extra = extra;
    args.append(&mut extra);
    assert(views(args@) =~= before + split_ws(cfg.jvm_args@));
    let ghost head = views(args@);
    let natives = natives_dir(d, meta.id.as_str());
    match &meta.arguments {
        Some(a) => {
            let jvm = argument_strings(&a.jvm, &features, host);
            substitute_all(&mut args, &jvm, &vars);
        },
        None => {
            push_text(&mut args, text::concat2("-Djava.library.path=", natives.as_str()));
            push_text(&mut args, text::owned("-Dminecraft.launcher.brand=SlintLauncher"));
            push_text(&mut args, text::concat2("-Dminecraft.launcher.version=", launcher_version));
            push_text(&mut args, text::owned("-cp"));
            push_text(&mut args, classpath(meta, d, host, jar_exists));
        },
    }
    let ghost after_jvm = views(args@);
    let mut has_log = false;
    if let Some(l) = &meta.logging {
        if let Some(c) = &l.client {
            if c.file.url.is_some() || c.file.path.is_some() {
                has_log = true;
                push_text(&mut args, text::substitute(c.argument.as_str(), &vars));
            }
        }
    }
    let ghost after_log = views(args@);
    push_text(&mut args, meta.main_class.clone());
    let ghost after_main = views(args@);
    match &meta.arguments {
        Some(a) => {
            let game = argument_strings(&a.game, &features, host);
            substitute_all(&mut args, &game, &vars);
        },
        None => match &meta.minecraft_arguments {
            Some(legacy) => {
                let words = text::split_whitespace(legacy.as_str());
                assert(views(words@) =~= split_ws(legacy@));
                substitute_all(&mut args, &words, &vars);
            },
            None => {
                return Err(Error::msg(text::owned("в манифесте версии нет аргументов запуска")));
            },
        },
    }
    let ghost after_game = views(args@);
    if cfg.fullscreen {
        push_text(&mut args, text::owned("--fullscreen"));
    }
    proof {
        let spec_args = spec_launch_args(*cfg, *instance, *account, *meta, *d, *host, jar_exists, launcher_version@);
        assert(spec_args is Some);
        let full = spec_args->0;
        if cfg.fullscreen {
            assert(views(args@) =~= after_game.push("--fullscreen"@));
        } else {
            assert(views(args@) =~= after_game + Seq::<Seq<char>>::empty());
        }
        assert(views(args@) =~= full);
    }
    Ok(LaunchPlan { java, args, cwd: instance_game_dir(d, instance.id.as_str()) })
}

/// The folders an instance's game directory gets before a launch.
pub open spec fn spec_instance_dirs(game_dir: Seq<char>, sep: char) -> Seq<Seq<char>> {
    seq![
        spec_join(game_dir, "saves"@, sep),
        spec_join(game_dir, "mods"@, sep),
        spec_join(game_dir, "resourcepacks"@, sep),
        spec_join(game_dir, "shaderpacks"@, sep),
        spec_join(game_dir, "screenshots"@, sep),
        spec_join(game_dir, "logs"@, sep),
    ]
}

/// The folders of an instance: saves, mods, resource packs, shader packs,
/// screenshots and logs, under its game directory.
pub fn instance_dirs(game_dir: &str, sep: char) -> (res: Vec<String>)
    ensures
        views(res@) == spec_instance_dirs(game_dir@, sep),
{
    let mut out: Vec<String> = Vec::new();
    out.push(join(game_dir, "saves", sep));
    out.push(join(game_dir, "mods", sep));
    out.push(join(game_dir, "resourcepacks", sep));
    out.push(join(game_dir, "shaderpacks", sep));
    out.push(join(game_dir, "screenshots", sep));
    out.push(join(game_dir, "logs", sep));
    assert(views(out@) =~= spec_instance_dirs(game_dir@, sep));
    out
}

} // verus!
