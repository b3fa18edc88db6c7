use vstd::prelude::*;

use crate::digest::{md5_digest, new_uuid_v4, spec_md5};
use crate::paths::{instance_game_dir, spec_instance_game_dir, DataDir};
use crate::text::{self, is_ascii_alnum, spec_hex_lower, spec_trim};

verus! {

/// Launcher settings, accounts and instances, as stored in `config.json`.
#[derive(Debug, Clone)]
pub struct Config {
    pub ram_mb: u32,
    pub java_path: String,
    pub jvm_args: String,
    pub width: u32,
    pub height: u32,
    pub fullscreen: bool,
    pub show_snapshots: bool,
    pub show_old: bool,
    pub language: String,
    pub close_on_launch: bool,
    pub accounts: Vec<Account>,
    pub active_account: String,
    pub instances: Vec<Instance>,
    pub active_instance: String,
}

/// A player account.
#[derive(Debug, Clone)]
pub struct Account {
    pub id: String,
    pub kind: AccountKind,
    pub name: String,
    pub uuid: String,
    pub access_token: String,
    pub refresh_token: String,
    pub xuid: String,
    pub expires_at: i64,
}

/// How an account signs in.
#[derive(Debug, Clone, Copy, PartialEq, Eq, Structural)]
pub enum AccountKind {
    Offline,
    Microsoft,
}

/// A game instance: a version, a loader and a game directory of its own.
#[derive(Debug, Clone)]
pub struct Instance {
    pub id: String,
    pub name: String,
    pub version: String,
    pub loader: String,
    pub fabric_loader: String,
    pub last_played: i64,
    pub ram_override: u32,
}

/// The default loader name of an instance.
pub fn vanilla_loader() -> (res: String)
    ensures
        res@ == "vanilla"@,
{
    text::owned("vanilla")
}

/// No instance before position `upto` has id `id`.
pub open spec fn no_instance(v: Seq<Instance>, id: Seq<char>, upto: int) -> bool {
    forall|j: int| 0 <= j < upto ==> (#[trigger] v[j]).id@ != id
}

/// Position `i` holds the first instance with id `id`.
pub open spec fn first_instance(v: Seq<Instance>, id: Seq<char>, i: int) -> bool {
    0 <= i < v.len() && v[i].id@ == id && no_instance(v, id, i)
}

/// No account before position `upto` has id `id`.
pub open spec fn no_account(v: Seq<Account>, id: Seq<char>, upto: int) -> bool {
    forall|j: int| 0 <= j < upto ==> (#[trigger] v[j]).id@ != id
}

/// Position `i` holds the first account with id `id`.
pub open spec fn first_account(v: Seq<Account>, id: Seq<char>, i: int) -> bool {
    0 <= i < v.len() && v[i].id@ == id && no_account(v, id, i)
}

pub(crate) fn instance_index(v: &Vec<Instance>, id: &str) -> (res: Option<usize>)
    ensures
        match res {
            Some(i) => first_instance(v@, id@, i as int),
            None => no_instance(v@, id@, v@.len() as int),
        },
{
    let n = v.len();
    let mut i: usize = 0;
    while i < n
        invariant
            n == v@.len(),
            i <= n,
            no_instance(v@, id@, i as int),
        decreases n - i,
    {
        if text::eq(v[i].id.as_str(), id) {
            return Some(i);
        }
        i = i + 1;
    }
    None
}

pub(crate) fn account_index(v: &Vec<Account>, id: &str) -> (res: Option<usize>)
    ensures
        match res {
            Some(i) => first_account(v@, id@, i as int),
            None => no_account(v@, id@, v@.len() as int),
        },
{
    let n = v.len();
    let mut i: usize = 0;
    while i < n
        invariant
            n == v@.len(),
            i <= n,
            no_account(v@, id@, i as int),
        decreases n - i,
    {
        if text::eq(v[i].id.as_str(), id) {
            return Some(i);
        }
        i = i + 1;
    }
    None
}

/// Every field but the account and instance lists is the same.
pub open spec fn same_settings(a: Config, b: Config) -> bool {
    &&& a.ram_mb == b.ram_mb
    &&& a.java_path == b.java_path
    &&& a.jvm_args == b.jvm_args
    &&& a.width == b.width
    &&& a.height == b.height
    &&& a.fullscreen == b.fullscreen
    &&& a.show_snapshots == b.show_snapshots
    &&& a.show_old == b.show_old
    &&& a.language == b.language
    &&& a.close_on_launch == b.close_on_launch
    &&& a.active_account == b.active_account
    &&& a.active_instance == b.active_instance
}

impl Config {
    /// The active instance: the first whose id is `active_instance`.
    pub fn active_instance(&self) -> (res: Option<&Instance>)
        ensures
            match res {
                Some(r) => exists|i: int|
                    first_instance(self.instances@, self.active_instance@, i) && *r
                        == self.instances@[i],
                None => no_instance(
                    self.instances@,
                    self.active_instance@,
                    self.instances@.len() as int,
                ),
            },
    {
        match instance_index(&self.instances, self.active_instance.as_str()) {
            Some(i) => Some(&self.instances[i]),
            None => None,
        }
    }

    /// The active account: the first whose id is `active_account`.
    pub fn active_account(&self) -> (res: Option<&Account>)
        ensures
            match res {
                Some(r) => exists|i: int|
                    first_account(self.accounts@, self.active_account@, i) && *r
                        == self.accounts@[i],
                None => no_account(
                    self.accounts@,
                    self.active_account@,
                    self.accounts@.len() as int,
                ),
            },
    {
        match account_index(&self.accounts, self.active_account.as_str()) {
            Some(i) => Some(&self.accounts[i]),
            None => None,
        }
    }

    /// The active instance, to change in place.
    pub fn active_instance_mut(&mut self) -> (res: Option<&mut Instance>)
        ensures
            match res {
                Some(r) => exists|i: int|
                    {
                        &&& first_instance(old(self).instances@, old(self).active_instance@, i)
                        &&& *r == old(self).instances@[i]
                        &&& final(self).instances@ == old(self).instances@.update(i, *final(r))
                    },
                None => no_instance(
                    old(self).instances@,
                    old(self).active_instance@,
                    old(self).instances@.len() as int,
                ) && final(self).instances@ == old(self).instances@,
            },
            final(self).accounts@ == old(self).accounts@,
            same_settings(*final(self), *old(self)),
    {
        match instance_index(&self.instances, self.active_instance.as_str()) {
            Some(i) => Some(&mut self.instances[i]),
            None => None,
        }
    }

    /// The active account, to change in place.
    pub fn active_account_mut(&mut self) -> (res: Option<&mut Account>)
        ensures
            match res {
                Some(r) => exists|i: int|
                    {
                        &&& first_account(old(self).accounts@, old(self).active_account@, i)
                        &&& *r == old(self).accounts@[i]
                        &&& final(self).accounts@ == old(self).accounts@.update(i, *final(r))
                    },
                None => no_account(
                    old(self).accounts@,
                    old(self).active_account@,
                    old(self).accounts@.len() as int,
                ) && final(self).accounts@ == old(self).accounts@,
            },
            final(self).instances@ == old(self).instances@,
            same_settings(*final(self), *old(self)),
    {
        match account_index(&self.accounts, self.active_account.as_str()) {
            Some(i) => Some(&mut self.accounts[i]),
            None => None,
        }
    }
}


/// A character that may stand in an offline player name.
pub open spec fn name_char(c: char) -> bool {
    is_ascii_alnum(c) || c == '_'
}

/// The characters of `s` that may stand in a player name, in order.
pub open spec fn name_chars(s: Seq<char>) -> Seq<char>
    decreases s.len(),
{
    if s.len() == 0 {
        Seq::empty()
    } else if name_char(s.last()) {
        name_chars(s.drop_last()).push(s.last())
    } else {
        name_chars(s.drop_last())
    }
}

/// The player name made of `name`: trimmed, only ASCII letters, digits and
/// `_`, at most 16 of them, and `Player` when nothing is left.
pub open spec fn spec_sanitize_name(name: Seq<char>) -> Seq<char> {
    let kept = name_chars(spec_trim(name));
    let cut = if kept.len() > 16 {
        kept.take(16)
    } else {
        kept
    };
    if cut.len() == 0 {
        "Player"@
    } else {
        cut
    }
}

/// Cleans a player name for an offline account.
pub fn sanitize_name(name: &str) -> (res: String)
    ensures
        res@ == spec_sanitize_name(name@),
        1 <= res@.len() <= 16,
{
    let v = text::to_chars(name);
    let t = text::trim_chars(&v);
    let n = t.len();
    let mut kept: Vec<char> = Vec::new();
    let mut i: usize = 0;
    while i < n
        invariant
            n == t@.len(),
            i <= n,
            kept@ == name_chars(t@.take(i as int)),
        decreases n - i,
    {
        let c = t[i];
        assert(t@.take(i as int + 1).drop_last() =~= t@.take(i as int));
        if text::ascii_alnum(c) || c == '_' {
            kept.push(c);
        }
        i = i + 1;
    }
    assert(t@.take(n as int) =~= t@);
    if kept.len() > 16 {
        kept.truncate(16);
    }
    if kept.len() == 0 {
        proof {
            reveal_strlit("Player");
        }
        text::owned("Player")
    } else {
        text::from_chars(&kept)
    }
}

proof fn lemma_name_chars_are_name_chars(s: Seq<char>)
    ensures
        name_chars(s).len() <= s.len(),
        forall|i: int| 0 <= i < name_chars(s).len() ==> name_char(#[trigger] name_chars(s)[i]),
    decreases s.len(),
{
    if s.len() > 0 {
        lemma_name_chars_are_name_chars(s.drop_last());
        let r = name_chars(s.drop_last());
        assert forall|i: int| 0 <= i < r.len() + 1 && name_char(s.last()) implies name_char(
            #[trigger] r.push(s.last())[i],
        ) by {
            if i < r.len() {
                assert(r.push(s.last())[i] == r[i]);
            }
        }
    }
}

proof fn lemma_name_chars_keep_all(s: Seq<char>)
    requires
        forall|i: int| 0 <= i < s.len() ==> name_char(#[trigger] s[i]),
    ensures
        name_chars(s) == s,
    decreases s.len(),
{
    if s.len() > 0 {
        assert forall|i: int| 0 <= i < s.drop_last().len() implies name_char(#[trigger] s.drop_last()[i]) by {
            assert(s.drop_last()[i] == s[i]);
        }
        lemma_name_chars_keep_all(s.drop_last());
        assert(name_char(s[s.len() - 1]));
        assert(s.drop_last().push(s.last()) =~= s);
    }
}

/// A cleaned player name is one to sixteen ASCII letters, digits and `_`, and
/// cleaning it again changes nothing.
pub proof fn law_sanitize_name_is_stable(name: Seq<char>)
    ensures
        1 <= spec_sanitize_name(name).len() <= 16,
        forall|i: int|
            0 <= i < spec_sanitize_name(name).len() ==> name_char(#[trigger] spec_sanitize_name(name)[i]),
        spec_sanitize_name(spec_sanitize_name(name)) == spec_sanitize_name(name),
{
    reveal_strlit("Player");
    let kept = name_chars(spec_trim(name));
    lemma_name_chars_are_name_chars(spec_trim(name));
    let r = spec_sanitize_name(name);
    assert forall|i: int| 0 <= i < r.len() implies name_char(#[trigger] r[i]) by {
        if kept.len() > 16 {
            assert(r[i] == kept[i]);
        } else if kept.len() > 0 {
            assert(r[i] == kept[i]);
        }
    }
    assert(!text::is_ws(r[0]));
    assert(text::trim_start(r) == r);
    assert(!text::is_ws(r.last())) by {
        assert(name_char(r[r.len() - 1]));
    }
    assert(text::trim_end(r) == r);
    assert(spec_trim(r) == r);
    lemma_name_chars_keep_all(r);
}

/// The version-3 marking of a 16-byte digest: the high nibble of byte 6 becomes
/// 3 and the top two bits of byte 8 become `10`.
pub open spec fn mark_v3(d: Seq<u8>) -> Seq<u8> {
    d.update(6, (d[6] & 0x0f) | 0x30).update(8, (d[8] & 0x3f) | 0x80)
}

/// Sixteen bytes written as a hyphenated UUID: groups of 4, 2, 2, 2 and 6 bytes.
pub open spec fn spec_uuid_text(b: Seq<u8>) -> Seq<char> {
    spec_hex_lower(b.subrange(0, 4)) + "-"@ + spec_hex_lower(b.subrange(4, 6)) + "-"@
        + spec_hex_lower(b.subrange(6, 8)) + "-"@ + spec_hex_lower(b.subrange(8, 10)) + "-"@
        + spec_hex_lower(b.subrange(10, 16))
}

/// Java's `UUID.nameUUIDFromBytes("OfflinePlayer:" + name)`.
pub open spec fn spec_offline_uuid(name: Seq<char>) -> Seq<char> {
    spec_uuid_text(mark_v3(spec_md5(vstd::utf8::encode_utf8("OfflinePlayer:"@ + name))))
}

fn sub_bytes(v: &Vec<u8>, from: usize, to: usize) -> (res: Vec<u8>)
    requires
        from <= to <= v@.len(),
    ensures
        res@ == v@.subrange(from as int, to as int),
{
    let mut out: Vec<u8> = Vec::new();
    let mut i = from;
    while i < to
        invariant
            from <= i <= to,
            to <= v@.len(),
            out@ == v@.subrange(from as int, i as int),
        decreases to - i,
    {
        out.push(v[i]);
        assert(v@.subrange(from as int, i as int + 1) =~= v@.subrange(from as int, i as int).push(
            v@[i as int],
        ));
        i = i + 1;
    }
    out
}

/// Sixteen bytes written as a hyphenated UUID.
pub fn uuid_text(b: &Vec<u8>) -> (res: String)
    requires
        b@.len() == 16,
    ensures
        res@ == spec_uuid_text(b@),
{
    let g1 = text::hex_lower(sub_bytes(b, 0, 4).as_slice());
    let g2 = text::hex_lower(sub_bytes(b, 4, 6).as_slice());
    let g3 = text::hex_lower(sub_bytes(b, 6, 8).as_slice());
    let g4 = text::hex_lower(sub_bytes(b, 8, 10).as_slice());
    let g5 = text::hex_lower(sub_bytes(b, 10, 16).as_slice());
    let mut out = String::new();
    text::push_str(&mut out, g1.as_str());
    text::push_str(&mut out, "-");
    text::push_str(&mut out, g2.as_str());
    text::push_str(&mut out, "-");
    text::push_str(&mut out, g3.as_str());
    text::push_str(&mut out, "-");
    text::push_str(&mut out, g4.as_str());
    text::push_str(&mut out, "-");
    text::push_str(&mut out, g5.as_str());
    assert(out@ =~= spec_uuid_text(b@));
    out
}

proof fn lemma_uuid_text_shape(b: Seq<u8>)
    requires
        b.len() == 16,
    ensures
        spec_uuid_text(b).len() == 36,
        spec_uuid_text(b)[8] == '-',
        spec_uuid_text(b)[13] == '-',
        spec_uuid_text(b)[18] == '-',
        spec_uuid_text(b)[23] == '-',
        spec_uuid_text(b)[14] == text::hex_digit((b[6] / 16) as nat),
{
    reveal_strlit("-");
    text::hex_lower_len(b.subrange(0, 4));
    text::hex_lower_len(b.subrange(4, 6));
    text::hex_lower_len(b.subrange(6, 8));
    text::hex_lower_len(b.subrange(8, 10));
    text::hex_lower_len(b.subrange(10, 16));
    let g3 = b.subrange(6, 8);
    assert(g3.drop_last() =~= seq![b[6]]);
    assert(seq![b[6]].drop_last() =~= Seq::<u8>::empty());
    assert(spec_hex_lower(Seq::<u8>::empty()) =~= Seq::<char>::empty());
    assert(spec_hex_lower(seq![b[6]]) =~= seq![
        text::hex_digit((b[6] / 16) as nat),
        text::hex_digit((b[6] % 16) as nat),
    ]);
    assert(spec_hex_lower(g3)[0] == text::hex_digit((b[6] / 16) as nat));
}

/// The name-based UUID of an MD5 digest: marked as version 3 and written with
/// dashes, as Java's `UUID.nameUUIDFromBytes` does.
pub fn name_uuid(digest: &Vec<u8>) -> (res: String)
    requires
        digest@.len() == 16,
    ensures
        res@ == spec_uuid_text(mark_v3(digest@)),
        res@.len() == 36,
        res@[8] == '-' && res@[13] == '-' && res@[18] == '-' && res@[23] == '-',
        res@[14] == '3',
{
    let mut bytes = digest.clone();
    assert(bytes@ =~= digest@);
    let b6 = bytes[6];
    let b8 = bytes[8];
    bytes.set(6, (b6 & 0x0f) | 0x30);
    bytes.set(8, (b8 & 0x3f) | 0x80);
    assert(bytes@ =~= mark_v3(digest@));
    let res = uuid_text(&bytes);
    proof {
        lemma_uuid_text_shape(bytes@);
        let x = (b6 & 0x0f) | 0x30;
        assert(((b6 & 0x0f) | 0x30) / 16 == 3) by (bit_vector);
        assert(bytes@[6] == x);
        reveal_strlit("-");
    }
    res
}

/// Java's `UUID.nameUUIDFromBytes("OfflinePlayer:" + name)`, as offline-mode
/// servers compute it.
pub fn offline_uuid(name: &str) -> (res: String)
    ensures
        res@ == spec_offline_uuid(name@),
        res@.len() == 36,
        res@[8] == '-' && res@[13] == '-' && res@[18] == '-' && res@[23] == '-',
        res@[14] == '3',
{
    let seed = text::concat2("OfflinePlayer:", name);
    let digest = md5_digest(seed.as_str().as_bytes());
    name_uuid(&digest)
}


/// A fresh offline account made from `name`.
pub open spec fn is_new_offline(a: Account, name: Seq<char>) -> bool {
    &&& a.kind == AccountKind::Offline
    &&& a.name@ == spec_sanitize_name(name)
    &&& a.uuid@ == spec_offline_uuid(a.name@)
    &&& a.access_token@ == "0"@
    &&& a.refresh_token@ == Seq::<char>::empty()
    &&& a.xuid@ == "0"@
    &&& a.expires_at == 0
    &&& crate::digest::is_hyphenated_uuid(a.id@)
}

impl Account {
    /// A new offline account for `name`, with a fresh random id.
    pub fn offline(name: &str) -> (res: Account)
        ensures
            is_new_offline(res, name@),
    {
        let name = sanitize_name(name);
        let uuid = offline_uuid(name.as_str());
        Account {
            id: new_uuid_v4(),
            kind: AccountKind::Offline,
            uuid,
            name,
            access_token: text::owned("0"),
            refresh_token: String::new(),
            xuid: text::owned("0"),
            expires_at: 0,
        }
    }

    /// The `user_type` the game expects for this account.
    pub fn user_type(&self) -> (res: &'static str)
        ensures
            res@ == (match self.kind {
                AccountKind::Offline => "legacy"@,
                AccountKind::Microsoft => "msa"@,
            }),
    {
        match self.kind {
            AccountKind::Offline => "legacy",
            AccountKind::Microsoft => "msa",
        }
    }

    /// The account kind as shown in the account list.
    pub fn kind_label(&self) -> (res: &'static str)
        ensures
            res@ == (match self.kind {
                AccountKind::Offline => "офлайн"@,
                AccountKind::Microsoft => "Microsoft"@,
            }),
    {
        match self.kind {
            AccountKind::Offline => "офлайн",
            AccountKind::Microsoft => "Microsoft",
        }
    }
}

/// The version that an instance launches: `<version>-fabric-<loader>` for a
/// Fabric instance with a chosen loader, else its version.
pub open spec fn spec_launch_version(i: Instance) -> Seq<char> {
    if i.loader@ == "fabric"@ && i.fabric_loader@.len() > 0 {
        i.version@ + "-fabric-"@ + i.fabric_loader@
    } else {
        i.version@
    }
}

/// A fresh vanilla instance with this name and version.
pub open spec fn is_new_vanilla(i: Instance, name: Seq<char>, version: Seq<char>) -> bool {
    &&& crate::digest::is_hyphenated_uuid(i.id@)
    &&& i.name@ == name
    &&& i.version@ == version
    &&& i.loader@ == "vanilla"@
    &&& i.fabric_loader@ == Seq::<char>::empty()
    &&& i.last_played == 0
    &&& i.ram_override == 0
}

impl Instance {
    /// A new vanilla instance with a fresh random id.
    pub fn vanilla(name: &str, version: &str) -> (res: Instance)
        ensures
            is_new_vanilla(res, name@, version@),
    {
        Instance {
            id: new_uuid_v4(),
            name: text::owned(name),
            version: text::owned(version),
            loader: vanilla_loader(),
            fabric_loader: String::new(),
            last_played: 0,
            ram_override: 0,
        }
    }

    /// The version id to launch.
    pub fn launch_version(&self) -> (res: String)
        ensures
            res@ == spec_launch_version(*self),
    {
        if text::eq(self.loader.as_str(), "fabric") && !self.fabric_loader.as_str().is_empty() {
            let a = text::concat3(self.version.as_str(), "-fabric-", self.fabric_loader.as_str());
            a
        } else {
            text::owned(self.version.as_str())
        }
    }

    /// The loader as shown in the instance list.
    pub fn loader_label(&self) -> (res: String)
        ensures
            res@ == (if self.loader@ == "fabric"@ {
                "Fabric "@ + self.fabric_loader@
            } else {
                "Vanilla"@
            }),
    {
        if text::eq(self.loader.as_str(), "fabric") {
            text::concat2("Fabric ", self.fabric_loader.as_str())
        } else {
            text::owned("Vanilla")
        }
    }

    /// The game directory of this instance.
    pub fn game_dir(&self, d: &DataDir) -> (res: String)
        ensures
            res@ == spec_instance_game_dir(*d, self.id@),
    {
        instance_game_dir(d, self.id.as_str())
    }

    /// The memory for this instance: its own setting when at least 1024 MB,
    /// else `fallback`.
    pub fn ram_mb(&self, fallback: u32) -> (res: u32)
        ensures
            res == (if self.ram_override >= 1024 {
                self.ram_override
            } else {
                fallback
            }),
    {
        if self.ram_override >= 1024 {
            self.ram_override
        } else {
            fallback
        }
    }
}

/// `u32::clamp`.
pub open spec fn spec_clamp(x: int, lo: int, hi: int) -> int {
    if x < lo {
        lo
    } else if x > hi {
        hi
    } else {
        x
    }
}

/// The default JVM flags.
pub open spec fn default_jvm_args() -> Seq<char> {
    "-XX:+UnlockExperimentalVMOptions -XX:+UseG1GC -XX:G1NewSizePercent=20 -XX:G1ReservePercent=20 -XX:MaxGCPauseMillis=50 -XX:G1HeapRegionSize=32M"@
}

/// The shape of `Config::default()`: the default settings, one offline
/// `Player` account, no active account yet, and one active vanilla instance
/// on the latest release.
pub open spec fn is_default_shape(c: Config) -> bool {
    &&& c.ram_mb == 4096
    &&& c.java_path@ == Seq::<char>::empty()
    &&& c.jvm_args@ == default_jvm_args()
    &&& c.width == 1280
    &&& c.height == 720
    &&& !c.fullscreen
    &&& !c.show_snapshots
    &&& !c.show_old
    &&& c.language@ == "ru"@
    &&& !c.close_on_launch
    &&& c.accounts@.len() == 1
    &&& is_new_offline(c.accounts@[0], "Player"@)
    &&& c.active_account@ == Seq::<char>::empty()
    &&& c.instances@.len() == 1
    &&& is_new_vanilla(c.instances@[0], "Ванилла"@, "latest-release"@)
    &&& c.active_instance == c.instances@[0].id
}

/// A configuration in which nothing needs repair: there are instances and
/// accounts, the active ones exist, and the memory is within 1024..=32768 MB.
pub open spec fn is_settled(c: Config) -> bool {
    &&& c.instances@.len() > 0
    &&& c.accounts@.len() > 0
    &&& !no_instance(c.instances@, c.active_instance@, c.instances@.len() as int)
    &&& !no_account(c.accounts@, c.active_account@, c.accounts@.len() as int)
    &&& 1024 <= c.ram_mb <= 32768
}

/// `r` is `c` repaired: a missing instance list gets a vanilla instance (which
/// becomes active), a missing account list an offline `Player`; an empty active
/// account becomes the first account; an active instance or account that does
/// not exist becomes the first one; the memory is clamped to 1024..=32768 MB.
pub open spec fn is_repair_of(c: Config, r: Config) -> bool {
    let act = if c.instances@.len() == 0 {
        r.instances@[0].id@
    } else {
        c.active_instance@
    };
    let acc = if c.active_account@.len() == 0 {
        r.accounts@[0].id@
    } else {
        c.active_account@
    };
    &&& c.instances@.len() == 0 ==> r.instances@.len() == 1 && is_new_vanilla(
        r.instances@[0],
        "Ванилла"@,
        "latest-release"@,
    )
    &&& c.instances@.len() > 0 ==> r.instances@ == c.instances@
    &&& c.accounts@.len() == 0 ==> r.accounts@.len() == 1 && is_new_offline(
        r.accounts@[0],
        "Player"@,
    )
    &&& c.accounts@.len() > 0 ==> r.accounts@ == c.accounts@
    &&& r.active_instance@ == (if no_instance(r.instances@, act, r.instances@.len() as int) {
        r.instances@[0].id@
    } else {
        act
    })
    &&& r.active_account@ == (if no_account(r.accounts@, acc, r.accounts@.len() as int) {
        r.accounts@[0].id@
    } else {
        acc
    })
    &&& r.ram_mb == spec_clamp(c.ram_mb as int, 1024, 32768)
    &&& r.java_path == c.java_path
    &&& r.jvm_args == c.jvm_args
    &&& r.width == c.width
    &&& r.height == c.height
    &&& r.fullscreen == c.fullscreen
    &&& r.show_snapshots == c.show_snapshots
    &&& r.show_old == c.show_old
    &&& r.language == c.language
    &&& r.close_on_launch == c.close_on_launch
}

impl Config {
    /// Repairs a configuration read from disk (see `is_repair_of`).
    pub fn repair(self) -> (res: Config)
        ensures
            is_repair_of(self, res),
            is_settled(res),
            is_settled(self) && self.active_account@.len() > 0 ==> res.instances@ == self.instances@ && res.accounts@
                == self.accounts@ && res.active_instance@ == self.active_instance@
                && res.active_account@ == self.active_account@ && res.ram_mb == self.ram_mb,
    {
        let ghost c0 = self;
        let mut cfg = self;
        if cfg.instances.len() == 0 {
            let vanilla = Instance::vanilla("Ванилла", "latest-release");
            cfg.active_instance = vanilla.id.clone();
            cfg.instances.push(vanilla);
        }
        if cfg.accounts.len() == 0 {
            cfg.accounts.push(Account::offline("Player"));
        }
        if cfg.active_account.as_str().is_empty() {
            cfg.active_account = cfg.accounts[0].id.clone();
        }
        if instance_index(&cfg.instances, cfg.active_instance.as_str()).is_none() {
            cfg.active_instance = cfg.instances[0].id.clone();
        }
        if account_index(&cfg.accounts, cfg.active_account.as_str()).is_none() {
            cfg.active_account = cfg.accounts[0].id.clone();
        }
        cfg.ram_mb = if cfg.ram_mb < 1024 {
            1024
        } else if cfg.ram_mb > 32768 {
            32768
        } else {
            cfg.ram_mb
        };
        proof {
            assert(cfg.instances@[0].id@ == cfg.instances@[0].id@);
            if no_instance(cfg.instances@, cfg.active_instance@, cfg.instances@.len() as int) {
                assert(cfg.instances@[0].id@ == cfg.active_instance@);
            }
            if no_account(cfg.accounts@, cfg.active_account@, cfg.accounts@.len() as int) {
                assert(cfg.accounts@[0].id@ == cfg.active_account@);
            }
        }
        cfg
    }

    /// The configuration to use after reading `config.json`: the parsed one, or
    /// the default when there was none, repaired.
    pub fn from_loaded(loaded: Option<Config>) -> (res: Config)
        ensures
            loaded matches Some(c) ==> is_repair_of(c, res),
            loaded is None ==> exists|d: Config| is_default_shape(d) && is_repair_of(d, res),
            is_settled(res),
    {
        match loaded {
            Some(c) => c.repair(),
            None => Config::default().repair(),
        }
    }
}

impl Default for Config {
    /// 4 GB of memory, 1280x720, one offline `Player` account and one vanilla
    /// instance on the latest release, which is active.
    fn default() -> (res: Self)
        ensures
            res.ram_mb == 4096,
            res.java_path@ == Seq::<char>::empty(),
            res.jvm_args@ == default_jvm_args(),
            res.width == 1280,
            res.height == 720,
            !res.fullscreen,
            !res.show_snapshots,
            !res.show_old,
            res.language@ == "ru"@,
            !res.close_on_launch,
            is_default_shape(res),
    {
        let vanilla = Instance::vanilla("Ванилла", "latest-release");
        let active = vanilla.id.clone();
        let mut instances: Vec<Instance> = Vec::new();
        instances.push(vanilla);
        let mut accounts: Vec<Account> = Vec::new();
        accounts.push(Account::offline("Player"));
        Config {
            ram_mb: 4096,
            java_path: String::new(),
            jvm_args: text::owned(
                "-XX:+UnlockExperimentalVMOptions -XX:+UseG1GC -XX:G1NewSizePercent=20 -XX:G1ReservePercent=20 -XX:MaxGCPauseMillis=50 -XX:G1HeapRegionSize=32M",
            ),
            width: 1280,
            height: 720,
            fullscreen: false,
            show_snapshots: false,
            show_old: false,
            language: text::owned("ru"),
            close_on_launch: false,
            accounts,
            active_account: String::new(),
            instances,
            active_instance: active,
        }
    }
}

/// Whatever was read from disk, its repair is settled: there are instances
/// and accounts, the active ones exist and the memory is in range.
pub proof fn law_repair_settles(c: Config, r: Config)
    requires
        is_repair_of(c, r),
    ensures
        is_settled(r),
{
    if no_instance(r.instances@, r.active_instance@, r.instances@.len() as int) {
        assert(r.instances@[0].id@ == r.active_instance@);
    }
    if no_account(r.accounts@, r.active_account@, r.accounts@.len() as int) {
        assert(r.accounts@[0].id@ == r.active_account@);
    }
}

/// Repairing a repaired configuration changes nothing.
pub proof fn law_repair_is_stable(c: Config, r: Config, again: Config)
    requires
        is_repair_of(c, r),
        is_repair_of(r, again),
    ensures
        again.instances@ == r.instances@,
        again.accounts@ == r.accounts@,
        again.active_instance@ == r.active_instance@,
        again.active_account@ == r.active_account@,
        again.ram_mb == r.ram_mb,
        again.java_path == r.java_path,
        again.jvm_args == r.jvm_args,
        again.width == r.width,
        again.height == r.height,
        again.fullscreen == r.fullscreen,
        again.show_snapshots == r.show_snapshots,
        again.show_old == r.show_old,
        again.language == r.language,
        again.close_on_launch == r.close_on_launch,
{
    law_repair_settles(c, r);
    if r.active_account@.len() == 0 {
        assert(r.active_account@ == r.accounts@[0].id@);
    }
}

/// A configuration that needed no repair when it was saved reads back as it
/// was, provided its active account id is not empty (an empty one is replaced
/// by the first account's id).
pub proof fn law_settled_config_reads_back(c: Config, r: Config)
    requires
        is_settled(c),
        c.active_account@.len() > 0,
        is_repair_of(c, r),
    ensures
        r.instances@ == c.instances@,
        r.accounts@ == c.accounts@,
        r.active_instance@ == c.active_instance@,
        r.active_account@ == c.active_account@,
        r.ram_mb == c.ram_mb,
        r.java_path == c.java_path,
        r.jvm_args == c.jvm_args,
        r.width == c.width,
        r.height == c.height,
        r.fullscreen == c.fullscreen,
        r.show_snapshots == c.show_snapshots,
        r.show_old == c.show_old,
        r.language == c.language,
        r.close_on_launch == c.close_on_launch,
{
}

} // verus!
