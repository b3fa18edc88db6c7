use vstd::prelude::*;

use crate::error::Error;
use crate::text;

verus! {

/// Fabric's metadata service.
pub const FABRIC_META: &'static str = "https://meta.fabricmc.net/v2";

/// One Fabric loader build for a game version.
#[derive(Debug, Clone)]
pub struct LoaderVersion {
    pub loader: LoaderInfo,
}

/// A Fabric loader build.
#[derive(Debug, Clone)]
pub struct LoaderInfo {
    pub version: String,
    pub stable: bool,
}

/// The URL listing the Fabric loaders of a game version.
pub fn loader_list_url(game: &str) -> (res: String)
    ensures
        res@ == FABRIC_META@ + "/versions/loader/"@ + game@,
{
    text::concat3(FABRIC_META, "/versions/loader/", game)
}

/// The URL of the launcher profile of a game version with a Fabric loader.
pub fn profile_url(game: &str, loader: &str) -> (res: String)
    ensures
        res@ == FABRIC_META@ + "/versions/loader/"@ + game@ + "/"@ + loader@ + "/profile/json"@,
{
    let mut s = text::concat3(FABRIC_META, "/versions/loader/", game);
    text::push_str(&mut s, "/");
    text::push_str(&mut s, loader);
    text::push_str(&mut s, "/profile/json");
    s
}

/// The loader to use: the first stable build, else the first build; an error
/// naming the game version when Fabric has none for it.
pub fn latest_loader(list: &Vec<LoaderVersion>, game: &str) -> (res: Result<String, Error>)
    ensures
        match res {
            Ok(v) => exists|i: int|
                0 <= i < list@.len() && v == list@[i].loader.version && ((list@[i].loader.stable
                    && forall|j: int| 0 <= j < i ==> !(#[trigger] list@[j]).loader.stable) || (i
                    == 0 && forall|j: int| 0 <= j < list@.len() ==> !(#[trigger] list@[j]).loader.stable)),
            Err(e) => list@.len() == 0 && (e matches Error::Message(m) && m@ == "Fabric не поддерживает "@ + game@),
        },
{
    let n = list.len();
    let mut i: usize = 0;
    while i < n
        invariant
            n == list@.len(),
            i <= n,
            forall|j: int| 0 <= j < i ==> !(#[trigger] list@[j]).loader.stable,
        decreases n - i,
    {
        if list[i].loader.stable {
            return Ok(list[i].loader.version.clone());
        }
        i = i + 1;
    }
    if n > 0 {
        Ok(list[0].loader.version.clone())
    } else {
        Err(Error::msg(text::concat2("Fabric не поддерживает ", game)))
    }
}

/// Accepts the id of an installed Fabric profile; an error when it is empty.
pub fn profile_id(id: String) -> (res: Result<String, Error>)
    ensures
        id@.len() > 0 ==> res == Ok::<String, Error>(id),
        id@.len() == 0 ==> (res matches Err(e) && e matches Error::Message(m) && m@ == "Fabric вернул пустой профиль"@),
{
    if id.as_str().is_empty() {
        Err(Error::msg(text::owned("Fabric вернул пустой профиль")))
    } else {
        Ok(id)
    }
}

} // verus!
