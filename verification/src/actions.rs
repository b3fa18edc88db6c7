use vstd::prelude::*;

use crate::config::{
    account_index, first_account, first_instance, instance_index, is_new_offline,
    no_account, no_instance, same_settings, vanilla_loader, Account, AccountKind, Config, Instance,
};
use crate::mojang::{resolve_alias, spec_resolve_alias, VersionManifest};
use crate::text::{self, spec_trim};

verus! {

/// `b` is instance `a` switched to version `version` without a loader.
pub open spec fn is_version_choice(a: Instance, b: Instance, version: Seq<char>) -> bool {
    &&& b.id == a.id
    &&& b.name == a.name
    &&& b.version@ == version
    &&& b.loader@ == "vanilla"@
    &&& b.fabric_loader@ == Seq::<char>::empty()
    &&& b.last_played == a.last_played
    &&& b.ram_override == a.ram_override
}

/// Switches the active instance to version `id`, as plain vanilla; nothing
/// changes when there is no active instance.
pub fn select_version(cfg: &mut Config, id: &str)
    ensures
        match instance_index_of(*old(cfg)) {
            Some(i) => final(cfg).instances@.len() == old(cfg).instances@.len() && (forall|j: int|
                0 <= j < old(cfg).instances@.len() && j != i ==> final(cfg).instances@[j]
                    == old(cfg).instances@[j]) && is_version_choice(
                old(cfg).instances@[i],
                final(cfg).instances@[i],
                id@,
            ),
            None => final(cfg).instances@ == old(cfg).instances@,
        },
        final(cfg).accounts@ == old(cfg).accounts@,
        same_settings(*final(cfg), *old(cfg)),
{
    match instance_index(&cfg.instances, cfg.active_instance.as_str()) {
        Some(i) => {
            proof {
                lemma_instance_index_of(*cfg, i as int);
            }
            let mut inst = cfg.instances.remove(i);
            inst.version = text::owned(id);
            inst.loader = vanilla_loader();
            inst.fabric_loader = String::new();
            cfg.instances.insert(i, inst);
        },
        None => {},
    }
}

/// The position of the active instance, if there is one.
pub open spec fn instance_index_of(cfg: Config) -> Option<int> {
    if exists|i: int| first_instance(cfg.instances@, cfg.active_instance@, i) {
        Some(choose|i: int| first_instance(cfg.instances@, cfg.active_instance@, i))
    } else {
        None
    }
}

proof fn lemma_instance_index_of(cfg: Config, i: int)
    requires
        first_instance(cfg.instances@, cfg.active_instance@, i),
    ensures
        instance_index_of(cfg) == Some(i),
{
    let c = choose|c: int| first_instance(cfg.instances@, cfg.active_instance@, c);
    if c < i {
        assert(cfg.instances@[c].id@ == cfg.active_instance@);
    } else if i < c {
        assert(cfg.instances@[i].id@ == cfg.active_instance@);
    }
}

/// The name a new instance gets: the typed name trimmed, or `Инстанс`.
pub open spec fn new_instance_name(name: Seq<char>) -> Seq<char> {
    if spec_trim(name).len() == 0 {
        "Инстанс"@
    } else {
        spec_trim(name)
    }
}

/// The version a new instance gets: the typed version trimmed, or `latest-release`.
pub open spec fn new_instance_version(version: Seq<char>) -> Seq<char> {
    if spec_trim(version).len() == 0 {
        "latest-release"@
    } else {
        spec_trim(version)
    }
}

/// Adds a new instance from the create dialog and makes it active: the name
/// and version as typed (trimmed, with defaults when empty), Fabric when
/// `loader` is 1, vanilla otherwise.
pub fn create_instance(cfg: &mut Config, name: &str, version: &str, loader: i32)
    ensures
        final(cfg).instances@.len() == old(cfg).instances@.len() + 1,
        final(cfg).instances@.drop_last() == old(cfg).instances@,
        ({
            let made = final(cfg).instances@.last();
            &&& crate::digest::is_hyphenated_uuid(made.id@)
            &&& made.name@ == new_instance_name(name@)
            &&& made.version@ == new_instance_version(version@)
            &&& made.loader@ == (if loader == 1 {
                "fabric"@
            } else {
                "vanilla"@
            })
            &&& made.fabric_loader@ == Seq::<char>::empty()
            &&& made.last_played == 0
            &&& made.ram_override == 0
            &&& final(cfg).active_instance == made.id
        }),
        final(cfg).accounts@ == old(cfg).accounts@,
        final(cfg).active_account == old(cfg).active_account,
        final(cfg).ram_mb == old(cfg).ram_mb,
{
    let n = text::trim(name);
    let v = text::trim(version);
    let name_used = if n.as_str().is_empty() {
        text::owned("Инстанс")
    } else {
        n
    };
    let version_used = if v.as_str().is_empty() {
        text::owned("latest-release")
    } else {
        v
    };
    let mut inst = Instance::vanilla(name_used.as_str(), version_used.as_str());
    if loader == 1 {
        inst.loader = text::owned("fabric");
    }
    cfg.active_instance = inst.id.clone();
    cfg.instances.push(inst);
    assert(final(cfg).instances@.drop_last() =~= old(cfg).instances@) by {
        assert(cfg.instances@.drop_last() =~= old(cfg).instances@);
    }
}

/// The instances other than those with id `id`, in order.
pub open spec fn other_instances(s: Seq<Instance>, id: Seq<char>) -> Seq<Instance> {
    s.filter(|i: Instance| i.id@ != id)
}

/// The accounts other than those with id `id`, in order.
pub open spec fn other_accounts(s: Seq<Account>, id: Seq<char>) -> Seq<Account> {
    s.filter(|a: Account| a.id@ != id)
}

proof fn lemma_other_instances_nonempty(s: Seq<Instance>, id: Seq<char>, j: int)
    requires
        0 <= j < s.len(),
        s[j].id@ != id,
    ensures
        other_instances(s, id).len() > 0,
    decreases s.len(),
{
    reveal(Seq::filter);
    if j < s.len() - 1 {
        lemma_other_instances_nonempty(s.drop_last(), id, j);
    }
}

proof fn lemma_other_accounts_nonempty(s: Seq<Account>, id: Seq<char>, j: int)
    requires
        0 <= j < s.len(),
        s[j].id@ != id,
    ensures
        other_accounts(s, id).len() > 0,
    decreases s.len(),
{
    reveal(Seq::filter);
    if j < s.len() - 1 {
        lemma_other_accounts_nonempty(s.drop_last(), id, j);
    }
}

fn remove_instances(v: Vec<Instance>, id: &str) -> (res: Vec<Instance>)
    ensures
        res@ == other_instances(v@, id@),
{
    let ghost orig = v@;
    let mut rest = v;
    let mut kept: Vec<Instance> = Vec::new();
    proof {
        reveal(Seq::filter);
        assert(orig.take(0) =~= Seq::<Instance>::empty());
        assert(orig.skip(0) =~= orig);
    }
    while rest.len() > 0
        invariant
            rest@.len() <= orig.len(),
            rest@ == orig.skip(orig.len() - rest@.len()),
            kept@ == other_instances(orig.take(orig.len() - rest@.len()), id@),
        decreases rest@.len(),
    {
        let ghost k = orig.len() - rest@.len();
        let x = rest.remove(0);
        assert(x == orig[k]);
        let drop = text::eq(x.id.as_str(), id);
        if !drop {
            kept.push(x);
        }
        proof {
            reveal(Seq::filter);
            assert(orig.take(k + 1).drop_last() =~= orig.take(k));
            assert(rest@ =~= orig.skip(k + 1));
        }
    }
    assert(orig.take(orig.len() as int) =~= orig);
    kept
}

fn remove_accounts(v: Vec<Account>, id: &str) -> (res: Vec<Account>)
    ensures
        res@ == other_accounts(v@, id@),
{
    let ghost orig = v@;
    let mut rest = v;
    let mut kept: Vec<Account> = Vec::new();
    proof {
        reveal(Seq::filter);
        assert(orig.take(0) =~= Seq::<Account>::empty());
        assert(orig.skip(0) =~= orig);
    }
    while rest.len() > 0
        invariant
            rest@.len() <= orig.len(),
            rest@ == orig.skip(orig.len() - rest@.len()),
            kept@ == other_accounts(orig.take(orig.len() - rest@.len()), id@),
        decreases rest@.len(),
    {
        let ghost k = orig.len() - rest@.len();
        let x = rest.remove(0);
        assert(x == orig[k]);
        let drop = text::eq(x.id.as_str(), id);
        if !drop {
            kept.push(x);
        }
        proof {
            reveal(Seq::filter);
            assert(orig.take(k + 1).drop_last() =~= orig.take(k));
            assert(rest@ =~= orig.skip(k + 1));
        }
    }
    assert(orig.take(orig.len() as int) =~= orig);
    kept
}

proof fn lemma_other_instances_keeps_all(s: Seq<Instance>, id: Seq<char>)
    requires
        forall|j: int| 0 <= j < s.len() ==> (#[trigger] s[j]).id@ != id,
    ensures
        other_instances(s, id) == s,
    decreases s.len(),
{
    reveal(Seq::filter);
    if s.len() > 0 {
        assert forall|j: int| 0 <= j < s.drop_last().len() implies (#[trigger] s.drop_last()[j]).id@ != id by {
            assert(s.drop_last()[j] == s[j]);
        }
        lemma_other_instances_keeps_all(s.drop_last(), id);
        assert(s.last() == s[s.len() - 1]);
        assert(s.drop_last().push(s.last()) =~= s);
    }
}

proof fn lemma_other_accounts_keeps_all(s: Seq<Account>, id: Seq<char>)
    requires
        forall|j: int| 0 <= j < s.len() ==> (#[trigger] s[j]).id@ != id,
    ensures
        other_accounts(s, id) == s,
    decreases s.len(),
{
    reveal(Seq::filter);
    if s.len() > 0 {
        assert forall|j: int| 0 <= j < s.drop_last().len() implies (#[trigger] s.drop_last()[j]).id@ != id by {
            assert(s.drop_last()[j] == s[j]);
        }
        lemma_other_accounts_keeps_all(s.drop_last(), id);
        assert(s.last() == s[s.len() - 1]);
        assert(s.drop_last().push(s.last()) =~= s);
    }
}

/// Deleting an instance right after adding it gives the instance list back,
/// when the new instance's id was not already taken.
pub proof fn law_delete_undoes_create(before: Seq<Instance>, made: Instance)
    requires
        forall|j: int| 0 <= j < before.len() ==> (#[trigger] before[j]).id@ != made.id@,
    ensures
        other_instances(before.push(made), made.id@) == before,
{
    reveal(Seq::filter);
    lemma_other_instances_keeps_all(before, made.id@);
    assert(before.push(made).drop_last() =~= before);
}

/// Deleting an account right after adding it gives the account list back,
/// when the new account's id was not already taken.
pub proof fn law_delete_undoes_add(before: Seq<Account>, added: Account)
    requires
        forall|j: int| 0 <= j < before.len() ==> (#[trigger] before[j]).id@ != added.id@,
    ensures
        other_accounts(before.push(added), added.id@) == before,
{
    reveal(Seq::filter);
    lemma_other_accounts_keeps_all(before, added.id@);
    assert(before.push(added).drop_last() =~= before);
}

/// Deletes the active instance (every instance with its id) and makes the
/// first remaining one active. The last instance is never deleted: then the
/// configuration stays as it is and the error text says so.
pub fn delete_active_instance(cfg: &mut Config) -> (res: Result<(), String>)
    requires
        old(cfg).instances@.len() <= 1 || exists|j: int|
            0 <= j < old(cfg).instances@.len() && (#[trigger] old(cfg).instances@[j]).id@
                != old(cfg).active_instance@,
    ensures
        old(cfg).instances@.len() <= 1 ==> (res matches Err(m) && m@
            == "Нельзя удалить последний инстанс"@ && *final(cfg) == *old(cfg)),
        old(cfg).instances@.len() > 1 ==> {
            &&& res is Ok
            &&& final(cfg).instances@ == other_instances(
                old(cfg).instances@,
                old(cfg).active_instance@,
            )
            &&& final(cfg).instances@.len() > 0
            &&& final(cfg).active_instance == final(cfg).instances@[0].id
        },
        final(cfg).accounts == old(cfg).accounts,
        final(cfg).active_account == old(cfg).active_account,
        final(cfg).ram_mb == old(cfg).ram_mb,
{
    if cfg.instances.len() <= 1 {
        return Err(text::owned("Нельзя удалить последний инстанс"));
    }
    let id = cfg.active_instance.clone();
    let ghost before = cfg.instances@;
    let mut all: Vec<Instance> = Vec::new();
    std::mem::swap(&mut all, &mut cfg.instances);
    cfg.instances = remove_instances(all, id.as_str());
    proof {
        let j = choose|j: int| 0 <= j < before.len() && (#[trigger] before[j]).id@ != id@;
        lemma_other_instances_nonempty(before, id@, j);
    }
    cfg.active_instance = cfg.instances[0].id.clone();
    Ok(())
}

/// Adds an offline account named after `name` and makes it active.
pub fn add_offline_account(cfg: &mut Config, name: &str)
    ensures
        final(cfg).accounts@.len() == old(cfg).accounts@.len() + 1,
        final(cfg).accounts@.drop_last() == old(cfg).accounts@,
        is_new_offline(final(cfg).accounts@.last(), name@),
        final(cfg).active_account == final(cfg).accounts@.last().id,
        final(cfg).instances == old(cfg).instances,
        final(cfg).active_instance == old(cfg).active_instance,
{
    let acc = Account::offline(name);
    cfg.active_account = acc.id.clone();
    cfg.accounts.push(acc);
    assert(final(cfg).accounts@.drop_last() =~= old(cfg).accounts@) by {
        assert(cfg.accounts@.drop_last() =~= old(cfg).accounts@);
    }
}

/// Deletes the active account (every account with its id) and makes the first
/// remaining one active; returns whether it did. The last account is never
/// deleted.
pub fn delete_active_account(cfg: &mut Config) -> (res: bool)
    requires
        old(cfg).accounts@.len() <= 1 || exists|j: int|
            0 <= j < old(cfg).accounts@.len() && (#[trigger] old(cfg).accounts@[j]).id@
                != old(cfg).active_account@,
    ensures
        res == (old(cfg).accounts@.len() > 1),
        !res ==> *final(cfg) == *old(cfg),
        res ==> {
            &&& final(cfg).accounts@ == other_accounts(
                old(cfg).accounts@,
                old(cfg).active_account@,
            )
            &&& final(cfg).accounts@.len() > 0
            &&& final(cfg).active_account == final(cfg).accounts@[0].id
        },
        final(cfg).instances == old(cfg).instances,
        final(cfg).active_instance == old(cfg).active_instance,
{
    if cfg.accounts.len() <= 1 {
        return false;
    }
    let id = cfg.active_account.clone();
    let ghost before = cfg.accounts@;
    let mut all: Vec<Account> = Vec::new();
    std::mem::swap(&mut all, &mut cfg.accounts);
    cfg.accounts = remove_accounts(all, id.as_str());
    proof {
        let j = choose|j: int| 0 <= j < before.len() && (#[trigger] before[j]).id@ != id@;
        lemma_other_accounts_nonempty(before, id@, j);
    }
    cfg.active_account = cfg.accounts[0].id.clone();
    true
}

/// No account before position `upto` has uuid `uuid`.
pub open spec fn no_uuid(v: Seq<Account>, uuid: Seq<char>, upto: int) -> bool {
    forall|j: int| 0 <= j < upto ==> (#[trigger] v[j]).uuid@ != uuid
}

fn uuid_index(v: &Vec<Account>, uuid: &str) -> (res: Option<usize>)
    ensures
        match res {
            Some(i) => i < v@.len() && v@[i as int].uuid@ == uuid@ && no_uuid(v@, uuid@, i as int),
            None => no_uuid(v@, uuid@, v@.len() as int),
        },
{
    let n = v.len();
    let mut i: usize = 0;
    while i < n
        invariant
            n == v@.len(),
            i <= n,
            no_uuid(v@, uuid@, i as int),
        decreases n - i,
    {
        if text::eq(v[i].uuid.as_str(), uuid) {
            return Some(i);
        }
        i = i + 1;
    }
    None
}

/// Stores an account that a Microsoft sign-in produced and makes it active: it
/// replaces the first account with the same player uuid, or is added at the end.
pub fn store_signed_in_account(cfg: &mut Config, account: Account)
    ensures
        final(cfg).active_account@ == account.id@,
        ({
            let v = old(cfg).accounts@;
            if no_uuid(v, account.uuid@, v.len() as int) {
                final(cfg).accounts@ == v.push(account)
            } else {
                exists|i: int|
                    0 <= i < v.len() && v[i].uuid@ == account.uuid@ && no_uuid(v, account.uuid@, i)
                        && final(cfg).accounts@ == v.update(i, account)
            }
        }),
        final(cfg).instances == old(cfg).instances,
        final(cfg).active_instance == old(cfg).active_instance,
{
    cfg.active_account = account.id.clone();
    match uuid_index(&cfg.accounts, account.uuid.as_str()) {
        Some(i) => {
            cfg.accounts.set(i, account);
        },
        None => {
            cfg.accounts.push(account);
        },
    }
}

/// Stores an account whose session was refreshed: it replaces the first account
/// with the same id; nothing changes when there is none.
pub fn store_refreshed_account(cfg: &mut Config, account: Account)
    ensures
        ({
            let v = old(cfg).accounts@;
            if no_account(v, account.id@, v.len() as int) {
                final(cfg).accounts@ == v
            } else {
                exists|i: int|
                    first_account(v, account.id@, i) && final(cfg).accounts@ == v.update(i, account)
            }
        }),
        final(cfg).instances == old(cfg).instances,
        same_settings(*final(cfg), *old(cfg)),
{
    match account_index(&cfg.accounts, account.id.as_str()) {
        Some(i) => {
            cfg.accounts.set(i, account);
        },
        None => {},
    }
}

/// `b` is instance `a` after a launch at time `now` on version `version`.
pub open spec fn is_launch_record(a: Instance, b: Instance, now: i64, version: Seq<char>) -> bool {
    &&& b.id == a.id
    &&& b.name == a.name
    &&& b.version@ == version
    &&& b.loader == a.loader
    &&& b.fabric_loader == a.fabric_loader
    &&& b.last_played == now
    &&& b.ram_override == a.ram_override
}

/// Notes a launch on the first instance with id `id`: when it was played and
/// the version it ran; nothing changes when there is no such instance.
pub fn record_launch(cfg: &mut Config, id: &str, now: i64, version: &str)
    ensures
        ({
            let v = old(cfg).instances@;
            if no_instance(v, id@, v.len() as int) {
                final(cfg).instances@ == v
            } else {
                exists|i: int|
                    first_instance(v, id@, i) && final(cfg).instances@.len() == v.len() && (forall|
                        j: int,
                    | 0 <= j < v.len() && j != i ==> final(cfg).instances@[j] == v[j])
                        && is_launch_record(v[i], final(cfg).instances@[i], now, version@)
            }
        }),
        final(cfg).accounts == old(cfg).accounts,
        same_settings(*final(cfg), *old(cfg)),
{
    match instance_index(&cfg.instances, id) {
        Some(i) => {
            let mut inst = cfg.instances.remove(i);
            inst.last_played = now;
            inst.version = text::owned(version);
            cfg.instances.insert(i, inst);
        },
        None => {},
    }
}

/// `b` is instance `a` pinned to Fabric loader `loader` on version `version`.
pub open spec fn is_loader_pin(a: Instance, b: Instance, loader: Seq<char>, version: Seq<char>) -> bool {
    &&& b.id == a.id
    &&& b.name == a.name
    &&& b.version@ == version
    &&& b.loader == a.loader
    &&& b.fabric_loader@ == loader
    &&& b.last_played == a.last_played
    &&& b.ram_override == a.ram_override
}

/// Remembers the Fabric loader chosen for the first instance with id `id`,
/// with the version it was chosen for; nothing changes when there is no such
/// instance.
pub fn pin_fabric_loader(cfg: &mut Config, id: &str, loader: &str, version: &str)
    ensures
        ({
            let v = old(cfg).instances@;
            if no_instance(v, id@, v.len() as int) {
                final(cfg).instances@ == v
            } else {
                exists|i: int|
                    first_instance(v, id@, i) && final(cfg).instances@.len() == v.len() && (forall|
                        j: int,
                    | 0 <= j < v.len() && j != i ==> final(cfg).instances@[j] == v[j])
                        && is_loader_pin(v[i], final(cfg).instances@[i], loader@, version@)
            }
        }),
        final(cfg).accounts == old(cfg).accounts,
        same_settings(*final(cfg), *old(cfg)),
{
    match instance_index(&cfg.instances, id) {
        Some(i) => {
            let mut inst = cfg.instances.remove(i);
            inst.fabric_loader = text::owned(loader);
            inst.version = text::owned(version);
            cfg.instances.insert(i, inst);
        },
        None => {},
    }
}

/// How the loader of an instance is settled before a launch.
#[derive(Debug, Clone)]
pub enum LoaderStep {
    /// Plain vanilla.
    Vanilla,
    /// Fabric with the loader version the instance already has.
    FabricPinned(String),
    /// Fabric with the newest loader for the version, to be looked up.
    FabricLatest,
}

/// What the play button does before installing: the version to launch, whether
/// the account's session must be refreshed first, and how the loader is chosen.
#[derive(Debug, Clone)]
pub struct PlayPlan {
    pub version: String,
    pub refresh_session: bool,
    pub loader: LoaderStep,
}

/// The steps before a launch: `latest-release` and `latest-snapshot` resolved
/// through the manifest, a refresh for Microsoft accounts, and for a Fabric
/// instance its pinned loader or, when it has none, a lookup of the newest.
pub fn play_plan(inst: &Instance, account: &Account, manifest: &VersionManifest) -> (res: PlayPlan)
    ensures
        res.version@ == spec_resolve_alias(*manifest, inst.version@),
        res.refresh_session == (account.kind == AccountKind::Microsoft),
        inst.loader@ == "fabric"@ ==> (if inst.fabric_loader@.len() == 0 {
            res.loader is FabricLatest
        } else {
            res.loader matches LoaderStep::FabricPinned(l) && l@ == inst.fabric_loader@
        }),
        inst.loader@ != "fabric"@ ==> res.loader is Vanilla,
{
    let version = text::owned(resolve_alias(manifest, inst.version.as_str()));
    let loader = if text::eq(inst.loader.as_str(), "fabric") {
        if inst.fabric_loader.as_str().is_empty() {
            LoaderStep::FabricLatest
        } else {
            LoaderStep::FabricPinned(text::owned(inst.fabric_loader.as_str()))
        }
    } else {
        LoaderStep::Vanilla
    };
    PlayPlan { version, refresh_session: account.kind == AccountKind::Microsoft, loader }
}

/// The status line after the game was started.
pub fn launched_message(pid: u32) -> (res: String)
    ensures
        res@ == "Minecraft запущен (pid "@ + text::dec(pid as nat) + ")"@,
{
    text::concat3("Minecraft запущен (pid ", text::u64_to_string(pid as u64).as_str(), ")")
}

/// What a Microsoft sign-in does next while it waits for the user.
#[derive(Debug, Clone, Copy, PartialEq, Eq, Structural)]
pub enum SignInStep {
    /// The user cancelled: stop quietly.
    Cancelled,
    /// The device code has expired: stop with an error.
    Expired,
    /// Ask the token endpoint again.
    Poll,
}

/// The next step of a device-code sign-in: cancelled when the user asked to,
/// else expired once more than `expires_in` seconds have passed (`elapsed` is
/// whole seconds and nanoseconds), else poll.
pub fn sign_in_step(cancelled: bool, elapsed_secs: u64, elapsed_nanos: u32, expires_in: u64) -> (res: SignInStep)
    ensures
        res == (if cancelled {
            SignInStep::Cancelled
        } else if elapsed_secs > expires_in || (elapsed_secs == expires_in && elapsed_nanos > 0) {
            SignInStep::Expired
        } else {
            SignInStep::Poll
        }),
{
    if cancelled {
        SignInStep::Cancelled
    } else if elapsed_secs > expires_in || (elapsed_secs == expires_in && elapsed_nanos > 0) {
        SignInStep::Expired
    } else {
        SignInStep::Poll
    }
}

} // verus!
