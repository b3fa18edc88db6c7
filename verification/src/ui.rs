use vstd::prelude::*;

use crate::config::{spec_clamp, Account, AccountKind, Config, Instance};
use crate::mojang::{VersionInfo, VersionManifest};
use crate::text::{
    self, all_digits, dec, is_ascii_digit, lemma_dec_reads_back, spec_contains,
    spec_lowercase, spec_parse_u32,
};

verus! {

/// The ASCII digits of `s`, in order.
pub open spec fn ascii_digits(s: Seq<char>) -> Seq<char> {
    s.filter(|c: char| is_ascii_digit(c))
}

/// The number typed into a form field: its ASCII digits read as a `u32`, or
/// `fallback` when there are none or they do not fit.
pub open spec fn spec_parse_num(s: Seq<char>, fallback: u32) -> u32 {
    match spec_parse_u32(ascii_digits(s)) {
        Some(n) => n,
        None => fallback,
    }
}

/// Reads a number out of a form field (see `spec_parse_num`).
pub fn parse_num(text: &str, fallback: u32) -> (res: u32)
    ensures
        res == spec_parse_num(text@, fallback),
{
    let v = text::to_chars(text);
    let n = v.len();
    let mut d: Vec<char> = Vec::new();
    let mut i: usize = 0;
    proof {
        reveal(Seq::filter);
        assert(v@.take(0) =~= Seq::<char>::empty());
    }
    while i < n
        invariant
            n == v@.len(),
            i <= n,
            d@ == ascii_digits(v@.take(i as int)),
        decreases n - i,
    {
        let c = v[i];
        if text::ascii_digit(c) {
            d.push(c);
        }
        proof {
            reveal(Seq::filter);
            assert(v@.take(i as int + 1).drop_last() =~= v@.take(i as int));
        }
        i = i + 1;
    }
    assert(v@.take(n as int) =~= text@);
    match text::parse_u32_chars(&d) {
        Some(k) => k,
        None => fallback,
    }
}

/// Whether a version of kind `kind` is listed under filter `filter`:
/// 0 releases, 1 snapshots, 2 old betas and alphas, anything else all.
pub open spec fn kind_shown(kind: Seq<char>, filter: i32) -> bool {
    if filter == 0 {
        kind == "release"@
    } else if filter == 1 {
        kind == "snapshot"@
    } else if filter == 2 {
        kind == "old_beta"@ || kind == "old_alpha"@
    } else {
        true
    }
}

/// Whether a version is listed: its kind passes the filter, and the (lowercase)
/// query is empty or occurs in the lowercased id.
pub open spec fn spec_version_visible(info: VersionInfo, filter: i32, query: Seq<char>) -> bool {
    kind_shown(info.kind@, filter) && (query.len() == 0 || spec_contains(
        spec_lowercase(info.id@),
        query,
    ))
}

/// Whether a version is listed (see `spec_version_visible`).
pub fn version_visible(info: &VersionInfo, filter: i32, query: &str) -> (res: bool)
    ensures
        res == spec_version_visible(*info, filter, query@),
{
    let kind = info.kind.as_str();
    let kind_ok = if filter == 0 {
        text::eq(kind, "release")
    } else if filter == 1 {
        text::eq(kind, "snapshot")
    } else if filter == 2 {
        text::eq(kind, "old_beta") || text::eq(kind, "old_alpha")
    } else {
        true
    };
    if !kind_ok {
        return false;
    }
    if query.is_empty() {
        return true;
    }
    let id = text::to_ascii_lowercase(info.id.as_str());
    text::contains(id.as_str(), query)
}

/// The positions of the listed versions, in order.
pub open spec fn shown_positions(s: Seq<VersionInfo>, filter: i32, query: Seq<char>) -> Seq<usize>
    decreases s.len(),
{
    if s.len() == 0 {
        Seq::empty()
    } else {
        let r = shown_positions(s.drop_last(), filter, query);
        if spec_version_visible(s.last(), filter, query) {
            r.push((s.len() - 1) as usize)
        } else {
            r
        }
    }
}

/// The first `n` elements of `s` (all of them when there are fewer).
pub open spec fn at_most<A>(s: Seq<A>, n: int) -> Seq<A> {
    if s.len() <= n {
        s
    } else {
        s.take(n)
    }
}

/// How many versions the version list shows at most.
pub const MAX_LISTED: usize = 400;

/// The positions in `versions` of the versions the version list shows: those
/// visible under `filter` and the lowercased `query`, at most `MAX_LISTED`, in
/// order.
pub fn visible_versions(versions: &Vec<VersionInfo>, filter: i32, query: &str) -> (res: Vec<usize>)
    ensures
        res@ == at_most(
            shown_positions(versions@, filter, spec_lowercase(query@)),
            MAX_LISTED as int,
        ),
{
    let q = text::to_ascii_lowercase(query);
    let n = versions.len();
    let mut out: Vec<usize> = Vec::new();
    let mut i: usize = 0;
    assert(versions@.take(0) =~= Seq::<VersionInfo>::empty());
    while i < n
        invariant
            n == versions@.len(),
            i <= n,
            q@ == spec_lowercase(query@),
            out@ == at_most(
                shown_positions(versions@.take(i as int), filter, q@),
                MAX_LISTED as int,
            ),
        decreases n - i,
    {
        let ghost before = shown_positions(versions@.take(i as int), filter, q@);
        let shown = version_visible(&versions[i], filter, q.as_str());
        proof {
            let t = versions@.take(i as int + 1);
            assert(t.drop_last() =~= versions@.take(i as int));
            assert(t.last() == versions@[i as int]);
        }
        if shown && out.len() < MAX_LISTED {
            out.push(i);
        }
        proof {
            let after = shown_positions(versions@.take(i as int + 1), filter, q@);
            if shown {
                assert(after == before.push(i));
                if before.len() >= MAX_LISTED {
                    assert(at_most(after, MAX_LISTED as int) =~= at_most(
                        before,
                        MAX_LISTED as int,
                    ));
                }
            }
        }
        i = i + 1;
    }
    assert(versions@.take(n as int) =~= versions@);
    out
}

proof fn lemma_shown_positions(s: Seq<VersionInfo>, filter: i32, query: Seq<char>)
    requires
        s.len() <= usize::MAX,
    ensures
        forall|k: int|
            0 <= k < shown_positions(s, filter, query).len() ==> {
                let p = #[trigger] shown_positions(s, filter, query)[k];
                p < s.len() && spec_version_visible(s[p as int], filter, query)
            },
        forall|a: int, b: int|
            0 <= a < b < shown_positions(s, filter, query).len() ==> shown_positions(
                s,
                filter,
                query,
            )[a] < shown_positions(s, filter, query)[b],
    decreases s.len(),
{
    if s.len() > 0 {
        let t = s.drop_last();
        lemma_shown_positions(t, filter, query);
        let r = shown_positions(t, filter, query);
        let full = shown_positions(s, filter, query);
        if spec_version_visible(s.last(), filter, query) {
            assert(full == r.push((s.len() - 1) as usize));
        } else {
            assert(full == r);
        }
        assert forall|k: int| 0 <= k < full.len() implies {
            let p = #[trigger] full[k];
            p < s.len() && spec_version_visible(s[p as int], filter, query)
        } by {
            if k < r.len() {
                assert(full[k] == r[k]);
                assert(t[r[k] as int] == s[r[k] as int]);
            } else {
                assert(s.last() == s[s.len() - 1]);
            }
        }
        assert forall|a: int, b: int| 0 <= a < b < full.len() implies full[a] < full[b] by {
            assert(full[a] == r[a]);
            if b < r.len() {
                assert(full[b] == r[b]);
            }
        }
    }
}

/// The version list shows at most `MAX_LISTED` versions, each visible under
/// the filter and query, in the order of the manifest, none twice.
pub proof fn law_listed_versions_are_visible(versions: Seq<VersionInfo>, filter: i32, query: Seq<char>)
    requires
        versions.len() <= usize::MAX,
    ensures
        ({
            let listed = at_most(shown_positions(versions, filter, query), MAX_LISTED as int);
            &&& listed.len() <= MAX_LISTED
            &&& forall|k: int|
                0 <= k < listed.len() ==> (#[trigger] listed[k]) < versions.len()
                    && spec_version_visible(versions[listed[k] as int], filter, query)
            &&& forall|a: int, b: int| 0 <= a < b < listed.len() ==> listed[a] < listed[b]
        }),
{
    lemma_shown_positions(versions, filter, query);
}

/// The version shown for an instance: its version, with `latest-release` and
/// `latest-snapshot` replaced by the manifest's newest release or snapshot when
/// a manifest is at hand.
pub open spec fn spec_display_version(version: Seq<char>, manifest: Option<VersionManifest>) -> Seq<
    char,
> {
    if version == "latest-release"@ {
        match manifest {
            Some(m) => m.latest.release@,
            None => "latest-release"@,
        }
    } else if version == "latest-snapshot"@ {
        match manifest {
            Some(m) => m.latest.snapshot@,
            None => "latest-snapshot"@,
        }
    } else {
        version
    }
}

/// The version shown for an instance (see `spec_display_version`).
pub fn display_version(inst: &Instance, manifest: Option<&VersionManifest>) -> (res: String)
    ensures
        res@ == spec_display_version(
            inst.version@,
            match manifest {
                Some(m) => Some(*m),
                None => None,
            },
        ),
{
    let v = inst.version.as_str();
    if text::eq(v, "latest-release") {
        match manifest {
            Some(m) => text::owned(m.latest.release.as_str()),
            None => text::owned("latest-release"),
        }
    } else if text::eq(v, "latest-snapshot") {
        match manifest {
            Some(m) => text::owned(m.latest.snapshot.as_str()),
            None => text::owned("latest-snapshot"),
        }
    } else {
        text::owned(v)
    }
}

/// The UTC date and time of a Unix timestamp as `dd.mm.yyyy hh:mm`, or `None`
/// when the timestamp is out of the calendar's range.
pub uninterp spec fn spec_utc_minutes(ts: i64) -> Option<Seq<char>>;

/// `chrono::DateTime::from_timestamp(ts, 0)` formatted with
/// `"%d.%m.%Y %H:%M"`: the UTC date and time of a Unix timestamp, `None` when
/// chrono's calendar cannot hold it. The text is named by `spec_utc_minutes`.
#[verifier::external_body]
fn utc_minutes(ts: i64) -> (res: Option<String>)
    ensures
        match res {
            Some(s) => spec_utc_minutes(ts) == Some(s@),
            None => spec_utc_minutes(ts) is None,
        },
{
    chrono::DateTime::from_timestamp(ts, 0).map(|dt| dt.format("%d.%m.%Y %H:%M").to_string())
}

/// When an instance was last played, as the instance list shows it, given the
/// UTC text of the timestamp when there is one: "not launched yet" for a
/// timestamp that is not positive, else that text, else a dash.
pub open spec fn spec_played_label(ts: i64, utc: Option<Seq<char>>) -> Seq<char> {
    if ts <= 0 {
        "ещё не запускался"@
    } else {
        match utc {
            Some(s) => s,
            None => "—"@,
        }
    }
}

/// When an instance was last played (see `spec_played_label`), from the UTC
/// text of its timestamp.
pub fn played_label(ts: i64, utc: Option<String>) -> (res: String)
    ensures
        res@ == spec_played_label(
            ts,
            match utc {
                Some(s) => Some(s@),
                None => None,
            },
        ),
{
    if ts <= 0 {
        return text::owned("ещё не запускался");
    }
    match utc {
        Some(s) => s,
        None => text::owned("—"),
    }
}

/// When an instance was last played, with the timestamp shown in UTC.
pub open spec fn spec_format_played(ts: i64) -> Seq<char> {
    spec_played_label(ts, spec_utc_minutes(ts))
}

/// When an instance was last played (see `spec_format_played`).
pub fn format_played(ts: i64) -> (res: String)
    ensures
        res@ == spec_format_played(ts),
{
    if ts <= 0 {
        return played_label(ts, None);
    }
    played_label(ts, utc_minutes(ts))
}

/// The settings form of the launcher window, as the user left it.
#[derive(Debug, Clone)]
pub struct SettingsForm {
    pub ram_mb: i32,
    pub java_path: String,
    pub jvm_args: String,
    pub width_text: String,
    pub height_text: String,
    pub fullscreen: bool,
    pub close_on_launch: bool,
    pub show_snapshots: bool,
    pub show_old: bool,
}

/// `form` shows the settings of `cfg`.
pub open spec fn is_form_of(form: SettingsForm, cfg: Config) -> bool {
    &&& form.ram_mb == cfg.ram_mb as i32
    &&& form.java_path@ == cfg.java_path@
    &&& form.jvm_args@ == cfg.jvm_args@
    &&& form.width_text@ == dec(cfg.width as nat)
    &&& form.height_text@ == dec(cfg.height as nat)
    &&& form.fullscreen == cfg.fullscreen
    &&& form.close_on_launch == cfg.close_on_launch
    &&& form.show_snapshots == cfg.show_snapshots
    &&& form.show_old == cfg.show_old
}

/// The settings form filled in from a configuration.
pub fn settings_form(cfg: &Config) -> (res: SettingsForm)
    ensures
        is_form_of(res, *cfg),
{
    SettingsForm {
        ram_mb: cfg.ram_mb as i32,
        java_path: text::owned(cfg.java_path.as_str()),
        jvm_args: text::owned(cfg.jvm_args.as_str()),
        width_text: text::u64_to_string(cfg.width as u64),
        height_text: text::u64_to_string(cfg.height as u64),
        fullscreen: cfg.fullscreen,
        close_on_launch: cfg.close_on_launch,
        show_snapshots: cfg.show_snapshots,
        show_old: cfg.show_old,
    }
}

/// `new` is `old` with the settings of `form` taken over: the memory clamped to
/// 1024..=32768 MB, the width read with fallback 1280 and clamped to
/// 640..=7680, the height read with fallback 720 and clamped to 480..=4320, the
/// rest as typed; accounts, instances and the language stay.
pub open spec fn is_pull_of(old: Config, form: SettingsForm, new: Config) -> bool {
    &&& new.ram_mb == spec_clamp(form.ram_mb as int, 1024, 32768)
    &&& new.java_path@ == form.java_path@
    &&& new.jvm_args@ == form.jvm_args@
    &&& new.width == spec_clamp(spec_parse_num(form.width_text@, 1280) as int, 640, 7680)
    &&& new.height == spec_clamp(spec_parse_num(form.height_text@, 720) as int, 480, 4320)
    &&& new.fullscreen == form.fullscreen
    &&& new.close_on_launch == form.close_on_launch
    &&& new.show_snapshots == form.show_snapshots
    &&& new.show_old == form.show_old
    &&& new.language == old.language
    &&& new.accounts == old.accounts
    &&& new.active_account == old.active_account
    &&& new.instances == old.instances
    &&& new.active_instance == old.active_instance
}

fn clamp_u32(x: u32, lo: u32, hi: u32) -> (res: u32)
    requires
        lo <= hi,
    ensures
        res == spec_clamp(x as int, lo as int, hi as int),
{
    if x < lo {
        lo
    } else if x > hi {
        hi
    } else {
        x
    }
}

/// Takes the settings of the form over into the configuration (see `is_pull_of`).
pub fn pull_settings(cfg: &mut Config, form: &SettingsForm)
    ensures
        is_pull_of(*old(cfg), *form, *final(cfg)),
{
    let ram: i32 = if form.ram_mb < 1024 {
        1024
    } else if form.ram_mb > 32768 {
        32768
    } else {
        form.ram_mb
    };
    cfg.ram_mb = ram as u32;
    cfg.java_path = text::owned(form.java_path.as_str());
    cfg.jvm_args = text::owned(form.jvm_args.as_str());
    cfg.width = clamp_u32(parse_num(form.width_text.as_str(), 1280), 640, 7680);
    cfg.height = clamp_u32(parse_num(form.height_text.as_str(), 720), 480, 4320);
    cfg.fullscreen = form.fullscreen;
    cfg.close_on_launch = form.close_on_launch;
    cfg.show_snapshots = form.show_snapshots;
    cfg.show_old = form.show_old;
}

proof fn lemma_digits_kept(s: Seq<char>)
    requires
        all_digits(s),
    ensures
        ascii_digits(s) == s,
    decreases s.len(),
{
    reveal(Seq::filter);
    if s.len() > 0 {
        lemma_digits_kept(s.drop_last());
        assert(s.drop_last().push(s.last()) =~= s);
    }
}

proof fn lemma_number_field(n: u32, fallback: u32)
    ensures
        spec_parse_num(dec(n as nat), fallback) == n,
{
    lemma_dec_reads_back(n as nat);
    lemma_digits_kept(dec(n as nat));
    assert(dec(n as nat)[0] != '+') by {
        assert(is_ascii_digit(dec(n as nat)[0]));
    }
}

/// Filling the form from a configuration and saving it unchanged gives the
/// configuration back, when its memory, width and height are already within
/// the ranges the form clamps to.
pub proof fn law_settings_form_round_trip(cfg: Config, form: SettingsForm, saved: Config)
    requires
        1024 <= cfg.ram_mb <= 32768,
        640 <= cfg.width <= 7680,
        480 <= cfg.height <= 4320,
        is_form_of(form, cfg),
        is_pull_of(cfg, form, saved),
    ensures
        saved.ram_mb == cfg.ram_mb,
        saved.java_path@ == cfg.java_path@,
        saved.jvm_args@ == cfg.jvm_args@,
        saved.width == cfg.width,
        saved.height == cfg.height,
        saved.fullscreen == cfg.fullscreen,
        saved.close_on_launch == cfg.close_on_launch,
        saved.show_snapshots == cfg.show_snapshots,
        saved.show_old == cfg.show_old,
        saved.language == cfg.language,
        saved.accounts == cfg.accounts,
        saved.active_account == cfg.active_account,
        saved.instances == cfg.instances,
        saved.active_instance == cfg.active_instance,
{
    lemma_number_field(cfg.width, 1280);
    lemma_number_field(cfg.height, 720);
    assert(cfg.ram_mb as i32 == cfg.ram_mb);
}

/// The summary of the active instance and account above the play button.
#[derive(Debug, Clone)]
pub struct Hero {
    pub instance: String,
    pub version: String,
    pub loader: String,
    pub account: String,
    pub ram_mb: i32,
}

/// The active instance of `cfg`, if any.
pub open spec fn active_instance_of(cfg: Config) -> Option<Instance> {
    if exists|i: int| crate::config::first_instance(cfg.instances@, cfg.active_instance@, i) {
        let i = choose|i: int| crate::config::first_instance(cfg.instances@, cfg.active_instance@, i);
        Some(cfg.instances@[i])
    } else {
        None
    }
}

/// The active account of `cfg`, if any.
pub open spec fn active_account_of(cfg: Config) -> Option<Account> {
    if exists|i: int| crate::config::first_account(cfg.accounts@, cfg.active_account@, i) {
        let i = choose|i: int| crate::config::first_account(cfg.accounts@, cfg.active_account@, i);
        Some(cfg.accounts@[i])
    } else {
        None
    }
}

/// The loader as the instance list shows it.
pub open spec fn spec_loader_label(i: Instance) -> Seq<char> {
    if i.loader@ == "fabric"@ {
        "Fabric "@ + i.fabric_loader@
    } else {
        "Vanilla"@
    }
}

/// What the summary shows: the active instance's name, shown version and
/// loader, the active account's name, and the memory; with placeholders where
/// there is no active instance or account.
pub open spec fn is_hero_of(h: Hero, cfg: Config, manifest: Option<VersionManifest>) -> bool {
    &&& match active_instance_of(cfg) {
        Some(i) => h.instance@ == i.name@ && h.version@ == spec_display_version(i.version@, manifest)
            && h.loader@ == spec_loader_label(i),
        None => h.instance@ == "Инстанс"@ && h.version@ == "—"@ && h.loader@ == "Vanilla"@,
    }
    &&& match active_account_of(cfg) {
        Some(a) => h.account@ == a.name@,
        None => h.account@ == "Player"@,
    }
    &&& h.ram_mb == cfg.ram_mb as i32
}

proof fn lemma_first_instance_unique(v: Seq<Instance>, id: Seq<char>, i: int, j: int)
    requires
        crate::config::first_instance(v, id, i),
        crate::config::first_instance(v, id, j),
    ensures
        i == j,
{
    if i < j {
        assert(v[i].id@ == id);
    } else if j < i {
        assert(v[j].id@ == id);
    }
}

proof fn lemma_first_account_unique(v: Seq<Account>, id: Seq<char>, i: int, j: int)
    requires
        crate::config::first_account(v, id, i),
        crate::config::first_account(v, id, j),
    ensures
        i == j,
{
    if i < j {
        assert(v[i].id@ == id);
    } else if j < i {
        assert(v[j].id@ == id);
    }
}

/// The summary above the play button (see `is_hero_of`).
pub fn hero(cfg: &Config, manifest: Option<&VersionManifest>) -> (res: Hero)
    ensures
        is_hero_of(
            res,
            *cfg,
            match manifest {
                Some(m) => Some(*m),
                None => None,
            },
        ),
{
    let (instance, version, loader) = match cfg.active_instance() {
        Some(i) => {
            proof {
                let k = choose|k: int|
                    crate::config::first_instance(cfg.instances@, cfg.active_instance@, k) && *i
                        == cfg.instances@[k];
                let c = choose|c: int|
                    crate::config::first_instance(cfg.instances@, cfg.active_instance@, c);
                lemma_first_instance_unique(cfg.instances@, cfg.active_instance@, k, c);
            }
            (text::owned(i.name.as_str()), display_version(i, manifest), i.loader_label())
        },
        None => (text::owned("Инстанс"), text::owned("—"), text::owned("Vanilla")),
    };
    let account = match cfg.active_account() {
        Some(a) => {
            proof {
                let k = choose|k: int|
                    crate::config::first_account(cfg.accounts@, cfg.active_account@, k) && *a
                        == cfg.accounts@[k];
                let c = choose|c: int|
                    crate::config::first_account(cfg.accounts@, cfg.active_account@, c);
                lemma_first_account_unique(cfg.accounts@, cfg.active_account@, k, c);
            }
            text::owned(a.name.as_str())
        },
        None => text::owned("Player"),
    };
    Hero { instance, version, loader, account, ram_mb: cfg.ram_mb as i32 }
}

/// One line of the account list.
#[derive(Debug, Clone)]
pub struct AccountRow {
    pub id: String,
    pub name: String,
    pub kind: String,
    pub selected: bool,
}

/// The account kind as the account list shows it.
pub open spec fn spec_kind_label(k: AccountKind) -> Seq<char> {
    match k {
        AccountKind::Offline => "офлайн"@,
        AccountKind::Microsoft => "Microsoft"@,
    }
}

/// `row` shows account `a`, selected when its id is the active one.
pub open spec fn is_account_row(row: AccountRow, a: Account, active: Seq<char>) -> bool {
    &&& row.id@ == a.id@
    &&& row.name@ == a.name@
    &&& row.kind@ == spec_kind_label(a.kind)
    &&& row.selected == (a.id@ == active)
}

/// The account list: one row per account, in order.
pub fn account_rows(cfg: &Config) -> (res: Vec<AccountRow>)
    ensures
        res@.len() == cfg.accounts@.len(),
        forall|k: int|
            0 <= k < res@.len() ==> is_account_row(
                #[trigger] res@[k],
                cfg.accounts@[k],
                cfg.active_account@,
            ),
{
    let n = cfg.accounts.len();
    let mut out: Vec<AccountRow> = Vec::new();
    let mut k: usize = 0;
    while k < n
        invariant
            n == cfg.accounts@.len(),
            k <= n,
            out@.len() == k,
            forall|j: int|
                0 <= j < k ==> is_account_row(#[trigger] out@[j], cfg.accounts@[j], cfg.active_account@),
        decreases n - k,
    {
        let a = &cfg.accounts[k];
        let row = AccountRow {
            id: text::owned(a.id.as_str()),
            name: text::owned(a.name.as_str()),
            kind: text::owned(a.kind_label()),
            selected: text::eq(a.id.as_str(), cfg.active_account.as_str()),
        };
        out.push(row);
        k = k + 1;
    }
    out
}

/// One line of the instance list.
#[derive(Debug, Clone)]
pub struct InstanceRow {
    pub id: String,
    pub name: String,
    pub version: String,
    pub loader: String,
    pub last_played: String,
    pub selected: bool,
}

/// `row` shows instance `i`, selected when its id is the active one.
pub open spec fn is_instance_row(row: InstanceRow, i: Instance, active: Seq<char>) -> bool {
    &&& row.id@ == i.id@
    &&& row.name@ == i.name@
    &&& row.version@ == spec_display_version(i.version@, None)
    &&& row.loader@ == spec_loader_label(i)
    &&& row.last_played@ == spec_format_played(i.last_played)
    &&& row.selected == (i.id@ == active)
}

/// The instance list: one row per instance, in order.
pub fn instance_rows(cfg: &Config) -> (res: Vec<InstanceRow>)
    ensures
        res@.len() == cfg.instances@.len(),
        forall|k: int|
            0 <= k < res@.len() ==> is_instance_row(
                #[trigger] res@[k],
                cfg.instances@[k],
                cfg.active_instance@,
            ),
{
    let n = cfg.instances.len();
    let mut out: Vec<InstanceRow> = Vec::new();
    let mut k: usize = 0;
    while k < n
        invariant
            n == cfg.instances@.len(),
            k <= n,
            out@.len() == k,
            forall|j: int|
                0 <= j < k ==> is_instance_row(
                    #[trigger] out@[j],
                    cfg.instances@[j],
                    cfg.active_instance@,
                ),
        decreases n - k,
    {
        let i = &cfg.instances[k];
        let row = InstanceRow {
            id: text::owned(i.id.as_str()),
            name: text::owned(i.name.as_str()),
            version: display_version(i, None),
            loader: i.loader_label(),
            last_played: format_played(i.last_played),
            selected: text::eq(i.id.as_str(), cfg.active_instance.as_str()),
        };
        out.push(row);
        k = k + 1;
    }
    out
}

} // verus!
