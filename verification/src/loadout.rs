//! The weapon skins of the players of the match in progress, and their cache.

use vstd::prelude::*;
use vstd::string::*;
use crate::api::types::{
    LoadoutItem, LoadoutsResponse, PlayerSkinData, PregameLoadoutsResponse, SocketItem, WeaponSkin,
};
use crate::dict::Dict;
use crate::text::str_eq;

verus! {

/// The skin of one weapon, as a mathematical value.
pub struct SkinModel {
    pub weapon_id: Seq<char>,
    pub skin_id: Seq<char>,
    pub chroma_id: Option<Seq<char>>,
}

/// The weapon skins of a player, as a mathematical value.
#[verifier::ext_equal]
pub struct PlayerSkinModel {
    pub puuid: Seq<char>,
    pub skins: Seq<SkinModel>,
}

impl View for WeaponSkin {
    type V = SkinModel;

    open spec fn view(&self) -> SkinModel {
        SkinModel {
            weapon_id: self.weapon_id@,
            skin_id: self.skin_id@,
            chroma_id: match self.chroma_id {
                Some(id) => Some(id@),
                None => None,
            },
        }
    }
}

impl View for PlayerSkinData {
    type V = PlayerSkinModel;

    open spec fn view(&self) -> PlayerSkinModel {
        PlayerSkinModel {
            puuid: self.puuid@,
            skins: Seq::new(self.skins@.len(), |i: int| self.skins@[i]@),
        }
    }
}

/// The type of the socket that holds the chroma of a skin.
pub const CHROMA_SOCKET_TYPE: &'static str = "3ad1b2b2-acdb-4524-852f-954a76ddae0a";

/// The type of the socket that holds the chroma of a skin.
pub open spec fn chroma_socket_type() -> Seq<char> {
    CHROMA_SOCKET_TYPE@
}

/// The chroma among the first `n` sockets: what sits in the last socket of the chroma
/// type.
pub open spec fn chroma_among(sockets: Seq<(String, SocketItem)>, n: nat) -> Option<Seq<char>>
    decreases n,
{
    if n == 0 {
        None
    } else if sockets[n - 1].1.item.type_id@ == chroma_socket_type() {
        Some(sockets[n - 1].1.item.id@)
    } else {
        chroma_among(sockets, (n - 1) as nat)
    }
}

/// The chroma of an item, if one is socketed.
pub open spec fn chroma_of(item: LoadoutItem) -> Option<Seq<char>> {
    match item.sockets {
        Some(sockets) => chroma_among(sockets@, sockets@.len()),
        None => None,
    }
}

/// The skin of the weapon `weapon_id` that carries `item`.
pub open spec fn skin_of(weapon_id: Seq<char>, item: LoadoutItem) -> SkinModel {
    SkinModel { weapon_id, skin_id: item.id@, chroma_id: chroma_of(item) }
}

/// The weapon skins of the player `puuid` with the items `items`, weapon by weapon in
/// the order of the items.
pub open spec fn skin_data_of(puuid: Seq<char>, items: Seq<(String, LoadoutItem)>)
    -> PlayerSkinModel {
    PlayerSkinModel {
        puuid,
        skins: Seq::new(items.len(), |i: int| skin_of(items[i].0@, items[i].1)),
    }
}

/// The chroma of an item, if one is socketed.
pub fn chroma(item: &LoadoutItem) -> (id: Option<String>)
    ensures
        match id {
            Some(id) => chroma_of(*item) == Some(id@),
            None => chroma_of(*item) is None,
        },
{
    let sockets = match &item.sockets {
        Some(sockets) => sockets,
        None => {
            return None;
        },
    };
    let mut found: Option<String> = None;
    let mut i: usize = 0;
    while i < sockets.len()
        invariant
            i <= sockets@.len(),
            match found {
                Some(id) => chroma_among(sockets@, i as nat) == Some(id@),
                None => chroma_among(sockets@, i as nat) is None,
            },
        decreases sockets@.len() - i,
    {
        let socket = &sockets[i].1;
        if str_eq(socket.item.type_id.as_str(), CHROMA_SOCKET_TYPE) {
            found = Some(socket.item.id.clone());
        }
        i += 1;
    }
    found
}

/// The weapon skins of a player.
pub fn weapon_skins(puuid: &String, items: &Vec<(String, LoadoutItem)>) -> (data: PlayerSkinData)
    ensures
        data@ == skin_data_of(puuid@, items@),
{
    let mut skins: Vec<WeaponSkin> = Vec::new();
    let mut i: usize = 0;
    while i < items.len()
        invariant
            i <= items@.len(),
            skins@.len() == i,
            forall|j: int|
                0 <= j < i ==> (#[trigger] skins@[j])@ == skin_of(items@[j].0@, items@[j].1),
        decreases items@.len() - i,
    {
        let item = &items[i].1;
        skins.push(
            WeaponSkin {
                weapon_id: items[i].0.clone(),
                skin_id: item.id.clone(),
                chroma_id: chroma(item),
            },
        );
        i += 1;
    }
    let data = PlayerSkinData { puuid: puuid.clone(), skins };
    assert(data@ =~= skin_data_of(puuid@, items@));
    data
}

/// The state of the cache of weapon skins.
#[verifier::ext_equal]
pub struct LoadoutModel {
    /// The weapon skins by player.
    pub loadouts: Map<Seq<char>, PlayerSkinModel>,
    /// The match that they belong to.
    pub match_id: Option<Seq<char>>,
}

/// The weapon skins of the players of one match.
pub struct LoadoutCache {
    loadouts: Dict<PlayerSkinData>,
    match_id: Option<String>,
}

impl View for LoadoutCache {
    type V = LoadoutModel;

    closed spec fn view(&self) -> LoadoutModel {
        LoadoutModel {
            loadouts: self.loadouts@,
            match_id: match self.match_id {
                Some(id) => Some(id@),
                None => None,
            },
        }
    }
}

/// The empty cache of weapon skins.
pub open spec fn no_loadouts() -> LoadoutModel {
    LoadoutModel { loadouts: Map::empty(), match_id: None }
}

/// The cache once the match `match_id` is seen: kept for the match that it belongs
/// to, emptied and given to the match for any other.
pub open spec fn observed(cache: LoadoutModel, match_id: Seq<char>) -> LoadoutModel {
    if cache.match_id == Some(match_id) {
        cache
    } else {
        LoadoutModel { loadouts: Map::empty(), match_id: Some(match_id) }
    }
}

/// The weapon skins by player after the first `n` loadouts of a match in agent selection.
pub open spec fn with_pregame(
    loadouts: Map<Seq<char>, PlayerSkinModel>,
    data: PregameLoadoutsResponse,
    n: nat,
) -> Map<Seq<char>, PlayerSkinModel>
    decreases n,
{
    if n == 0 {
        loadouts
    } else {
        let entry = data.loadouts@[n - 1];
        with_pregame(loadouts, data, (n - 1) as nat).insert(
            entry.subject@,
            skin_data_of(entry.subject@, entry.items@),
        )
    }
}

/// The weapon skins by player after the first `n` loadouts of a running match.
pub open spec fn with_coregame(
    loadouts: Map<Seq<char>, PlayerSkinModel>,
    data: LoadoutsResponse,
    n: nat,
) -> Map<Seq<char>, PlayerSkinModel>
    decreases n,
{
    if n == 0 {
        loadouts
    } else {
        let entry = data.loadouts@[n - 1].loadout;
        with_coregame(loadouts, data, (n - 1) as nat).insert(
            entry.subject@,
            skin_data_of(entry.subject@, entry.items@),
        )
    }
}

impl LoadoutCache {
    /// The empty cache.
    pub fn new() -> (cache: Self)
        ensures
            cache@ == no_loadouts(),
    {
        let cache = LoadoutCache { loadouts: Dict::new(), match_id: None };
        assert(cache@ =~= no_loadouts());
        cache
    }

    /// The weapon skins of `puuid`, if the cache holds them.
    pub fn get(&self, puuid: &String) -> (data: Option<&PlayerSkinData>)
        ensures
            match data {
                Some(d) => self@.loadouts.contains_key(puuid@) && d@ == self@.loadouts[puuid@],
                None => !self@.loadouts.contains_key(puuid@),
            },
    {
        self.loadouts.get(puuid)
    }

    /// Forgets everything.
    pub fn clear(&mut self)
        ensures
            final(self)@ == no_loadouts(),
    {
        self.loadouts.clear();
        self.match_id = None;
        assert(self@ =~= no_loadouts());
    }

    /// Tells the cache which match is in progress.
    pub fn observe_match(&mut self, match_id: &String)
        ensures
            final(self)@ == observed(old(self)@, match_id@),
    {
        let same = match &self.match_id {
            Some(id) => *id == *match_id,
            None => false,
        };
        if !same {
            self.loadouts.clear();
            self.match_id = Some(match_id.clone());
        }
        assert(self@ =~= observed(old(self)@, match_id@));
    }

    /// Takes in the loadouts of a match in agent selection.
    pub fn store_pregame(&mut self, data: &PregameLoadoutsResponse)
        ensures
            final(self)@ == (LoadoutModel {
                loadouts: with_pregame(old(self)@.loadouts, *data, data.loadouts@.len()),
                ..old(self)@
            }),
    {
        let mut i: usize = 0;
        while i < data.loadouts.len()
            invariant
                i <= data.loadouts@.len(),
                self@ == (LoadoutModel {
                    loadouts: with_pregame(old(self)@.loadouts, *data, i as nat),
                    ..old(self)@
                }),
            decreases data.loadouts@.len() - i,
        {
            let entry = &data.loadouts[i];
            self.loadouts.insert(entry.subject.clone(), weapon_skins(&entry.subject, &entry.items));
            assert(self@ =~= (LoadoutModel {
                loadouts: with_pregame(old(self)@.loadouts, *data, (i + 1) as nat),
                ..old(self)@
            }));
            i += 1;
        }
    }

    /// Takes in the loadouts of a running match.
    pub fn store_coregame(&mut self, data: &LoadoutsResponse)
        ensures
            final(self)@ == (LoadoutModel {
                loadouts: with_coregame(old(self)@.loadouts, *data, data.loadouts@.len()),
                ..old(self)@
            }),
    {
        let mut i: usize = 0;
        while i < data.loadouts.len()
            invariant
                i <= data.loadouts@.len(),
                self@ == (LoadoutModel {
                    loadouts: with_coregame(old(self)@.loadouts, *data, i as nat),
                    ..old(self)@
                }),
            decreases data.loadouts@.len() - i,
        {
            let entry = &data.loadouts[i].loadout;
            self.loadouts.insert(entry.subject.clone(), weapon_skins(&entry.subject, &entry.items));
            assert(self@ =~= (LoadoutModel {
                loadouts: with_coregame(old(self)@.loadouts, *data, (i + 1) as nat),
                ..old(self)@
            }));
            i += 1;
        }
    }
}

/// Why the weapon skins of a player cannot be had.
#[derive(Clone, Copy, Debug, PartialEq, Eq, Structural)]
pub enum LoadoutError {
    /// There is no session with the game client.
    NotConnected,
    /// The caller is in no match.
    NotInGame,
}

/// The message of an error.
pub open spec fn loadout_error_text(e: LoadoutError) -> Seq<char> {
    match e {
        LoadoutError::NotConnected => "Not connected"@,
        LoadoutError::NotInGame => "Not in game"@,
    }
}

impl LoadoutError {
    /// The message of the error.
    pub fn message(&self) -> (text: String)
        ensures
            text@ == loadout_error_text(*self),
    {
        match self {
            LoadoutError::NotConnected => String::from_str("Not connected"),
            LoadoutError::NotInGame => String::from_str("Not in game"),
        }
    }
}

/// The next step towards the weapon skins of a player.
pub enum LoadoutAction {
    /// They cannot be had.
    Fail(LoadoutError),
    /// The cache holds them.
    Cached,
    /// Ask which running match the caller is in.
    FetchCoregameId,
    /// Ask which match in agent selection the caller is in.
    FetchPregameId,
    /// Ask for the loadouts of the running match.
    FetchCoregameLoadouts { match_id: String },
    /// Ask for the loadouts of the match in agent selection.
    FetchPregameLoadouts { match_id: String },
}

/// The next step towards the weapon skins of a player, as a mathematical value.
pub enum LoadoutStep {
    Fail(LoadoutError),
    Cached,
    FetchCoregameId,
    FetchPregameId,
    FetchCoregameLoadouts { match_id: Seq<char> },
    FetchPregameLoadouts { match_id: Seq<char> },
}

impl View for LoadoutAction {
    type V = LoadoutStep;

    open spec fn view(&self) -> LoadoutStep {
        match self {
            LoadoutAction::Fail(e) => LoadoutStep::Fail(*e),
            LoadoutAction::Cached => LoadoutStep::Cached,
            LoadoutAction::FetchCoregameId => LoadoutStep::FetchCoregameId,
            LoadoutAction::FetchPregameId => LoadoutStep::FetchPregameId,
            LoadoutAction::FetchCoregameLoadouts { match_id } => {
                LoadoutStep::FetchCoregameLoadouts { match_id: match_id@ }
            },
            LoadoutAction::FetchPregameLoadouts { match_id } => LoadoutStep::FetchPregameLoadouts {
                match_id: match_id@,
            },
        }
    }
}

/// The next step towards the weapon skins of `puuid`.
///
/// Without a session there is none. What the cache holds is handed out. Else the
/// match is looked for, a running one first, then one in agent selection, and its
/// loadouts are asked for. A lookup that was not made yet is `None`; one that was made
/// holds what it gave.
pub open spec fn next_loadout_step(
    connected: bool,
    cache: LoadoutModel,
    puuid: Seq<char>,
    coregame_id: Option<Option<String>>,
    pregame_id: Option<Option<String>>,
) -> LoadoutStep {
    if !connected {
        LoadoutStep::Fail(LoadoutError::NotConnected)
    } else if cache.loadouts.contains_key(puuid) {
        LoadoutStep::Cached
    } else {
        match coregame_id {
            None => LoadoutStep::FetchCoregameId,
            Some(Some(id)) => LoadoutStep::FetchCoregameLoadouts { match_id: id@ },
            Some(None) => match pregame_id {
                None => LoadoutStep::FetchPregameId,
                Some(Some(id)) => LoadoutStep::FetchPregameLoadouts { match_id: id@ },
                Some(None) => LoadoutStep::Fail(LoadoutError::NotInGame),
            },
        }
    }
}

impl LoadoutCache {
    /// The next step towards the weapon skins of `puuid`.
    pub fn next_action(
        &self,
        connected: bool,
        puuid: &String,
        coregame_id: &Option<Option<String>>,
        pregame_id: &Option<Option<String>>,
    ) -> (action: LoadoutAction)
        ensures
            action@ == next_loadout_step(connected, self@, puuid@, *coregame_id, *pregame_id),
    {
        if !connected {
            return LoadoutAction::Fail(LoadoutError::NotConnected);
        }
        if self.loadouts.contains_key(puuid) {
            return LoadoutAction::Cached;
        }
        match coregame_id {
            None => LoadoutAction::FetchCoregameId,
            Some(Some(id)) => LoadoutAction::FetchCoregameLoadouts { match_id: id.clone() },
            Some(None) => match pregame_id {
                None => LoadoutAction::FetchPregameId,
                Some(Some(id)) => LoadoutAction::FetchPregameLoadouts { match_id: id.clone() },
                Some(None) => LoadoutAction::Fail(LoadoutError::NotInGame),
            },
        }
    }
}

} // verus!
