//! The fixed tables: agents, maps and queues.

use vstd::prelude::*;
use crate::text::{ascii_lowered, eq_ignore_ascii_case, str_eq};

verus! {

/// A table of pairs of texts.
pub type Table = Vec<(&'static str, &'static str)>;

/// The pairs of a table as sequences of characters.
pub open spec fn table_view(t: Seq<(&'static str, &'static str)>) -> Seq<(Seq<char>, Seq<char>)> {
    Seq::new(t.len(), |i: int| (t[i].0@, t[i].1@))
}

/// The second text of the first pair, from position `i` on, whose first text is `key`.
pub open spec fn value_from(table: Seq<(Seq<char>, Seq<char>)>, key: Seq<char>, i: nat) -> Option<
    Seq<char>,
>
    decreases table.len() - i,
{
    if i >= table.len() {
        None
    } else if table[i as int].0 == key {
        Some(table[i as int].1)
    } else {
        value_from(table, key, i + 1)
    }
}

/// The second text of the first pair whose first text is `key`.
pub open spec fn value_of(table: Seq<(Seq<char>, Seq<char>)>, key: Seq<char>) -> Option<Seq<char>> {
    value_from(table, key, 0)
}

/// The first text of the first pair, from position `i` on, whose second text is `value`
/// up to the case of ASCII letters.
pub open spec fn key_from(table: Seq<(Seq<char>, Seq<char>)>, value: Seq<char>, i: nat) -> Option<
    Seq<char>,
>
    decreases table.len() - i,
{
    if i >= table.len() {
        None
    } else if ascii_lowered(table[i as int].1) == ascii_lowered(value) {
        Some(table[i as int].0)
    } else {
        key_from(table, value, i + 1)
    }
}

/// The first text of the first pair whose second text is `value` up to the case of
/// ASCII letters.
pub open spec fn key_of(table: Seq<(Seq<char>, Seq<char>)>, value: Seq<char>) -> Option<Seq<char>> {
    key_from(table, value, 0)
}

/// Looks `key` up among the first texts of a table.
pub fn lookup(table: &Table, key: &str) -> (r: Option<&'static str>)
    ensures
        match r {
            Some(v) => value_of(table_view(table@), key@) == Some(v@),
            None => value_of(table_view(table@), key@) is None,
        },
{
    let ghost t = table_view(table@);
    let mut i: usize = 0;
    while i < table.len()
        invariant
            i <= table@.len(),
            t == table_view(table@),
            value_of(t, key@) == value_from(t, key@, i as nat),
        decreases table@.len() - i,
    {
        if str_eq(table[i].0, key) {
            return Some(table[i].1);
        }
        i += 1;
    }
    None
}

/// Looks `value` up among the second texts of a table, ignoring the case of ASCII letters.
pub fn reverse_lookup(table: &Table, value: &str) -> (r: Option<&'static str>)
    ensures
        match r {
            Some(k) => key_of(table_view(table@), value@) == Some(k@),
            None => key_of(table_view(table@), value@) is None,
        },
{
    let ghost t = table_view(table@);
    let mut i: usize = 0;
    while i < table.len()
        invariant
            i <= table@.len(),
            t == table_view(table@),
            key_of(t, value@) == key_from(t, value@, i as nat),
        decreases table@.len() - i,
    {
        if eq_ignore_ascii_case(table[i].1, value) {
            return Some(table[i].0);
        }
        i += 1;
    }
    None
}

/// The agents by name, each with its identifier.
pub open spec fn agent_table() -> Seq<(Seq<char>, Seq<char>)> {
    seq![
        ("jett"@, "add6443a-41bd-e414-f6ad-e58d267f4e95"@),
        ("reyna"@, "a3bfb853-43b2-7238-a4f1-ad90e9e46bcc"@),
        ("raze"@, "f94c3b30-42be-e959-889c-5aa313dba261"@),
        ("phoenix"@, "eb93336a-449b-9c1b-0a54-a891f7921d69"@),
        ("breach"@, "5f8d3a7f-467b-97f3-062c-13acf203c006"@),
        ("sova"@, "320b2a48-4d9b-a075-30f1-1f93a9b638fa"@),
        ("sage"@, "569fdd95-4d10-43ab-ca70-79becc718b46"@),
        ("cypher"@, "117ed9e3-49f3-6512-3ccf-0cada7e3823b"@),
        ("brimstone"@, "9f0d8ba9-4140-b941-57d3-a7ad57c6b417"@),
        ("killjoy"@, "1e58de9c-4950-5125-93e9-a0aee9f98746"@),
        ("viper"@, "707eab51-4836-f488-046a-cda6bf494859"@),
        ("omen"@, "8e253930-4c05-31dd-1b6c-968525494517"@),
        ("skye"@, "6f2a04ca-43e0-be17-7f36-b3908627744d"@),
        ("yoru"@, "7f94d92c-4234-0a36-9646-3a87eb8b5c89"@),
        ("astra"@, "41fb69c1-4189-7b37-f117-bcaf1e96f1bf"@),
        ("kayo"@, "601dbbe7-43ce-be57-2a40-4abd24953621"@),
        ("chamber"@, "22697a3d-45bf-8dd7-4fec-84a9e28c69d7"@),
        ("neon"@, "bb2a4828-46eb-8cd1-e765-15848195d751"@),
        ("fade"@, "dade69b4-4f5a-8528-247b-219e5a1facd6"@),
        ("harbor"@, "95b78ed7-4637-86d9-7e41-71ba8c293152"@),
        ("gekko"@, "e370fa57-4757-3604-3648-499e1f642d3f"@),
        ("deadlock"@, "cc8b64c8-4b25-4ff9-6e7f-37b4da43d235"@),
        ("iso"@, "0e38b510-41a8-5780-5e8f-568b2a4f2d6c"@),
        ("clove"@, "1dbf2edd-4729-0984-3115-daa5eed44993"@),
        ("vyse"@, "efba5359-4016-a1e5-7626-b1ae76895940"@),
    ]
}

/// The agents by name, each with its identifier.
pub fn agents() -> (t: Table)
    ensures
        table_view(t@) == agent_table(),
{
    let mut t: Table = Vec::new();
    t.push(("jett", "add6443a-41bd-e414-f6ad-e58d267f4e95"));
    t.push(("reyna", "a3bfb853-43b2-7238-a4f1-ad90e9e46bcc"));
    t.push(("raze", "f94c3b30-42be-e959-889c-5aa313dba261"));
    t.push(("phoenix", "eb93336a-449b-9c1b-0a54-a891f7921d69"));
    t.push(("breach", "5f8d3a7f-467b-97f3-062c-13acf203c006"));
    t.push(("sova", "320b2a48-4d9b-a075-30f1-1f93a9b638fa"));
    t.push(("sage", "569fdd95-4d10-43ab-ca70-79becc718b46"));
    t.push(("cypher", "117ed9e3-49f3-6512-3ccf-0cada7e3823b"));
    t.push(("brimstone", "9f0d8ba9-4140-b941-57d3-a7ad57c6b417"));
    t.push(("killjoy", "1e58de9c-4950-5125-93e9-a0aee9f98746"));
    t.push(("viper", "707eab51-4836-f488-046a-cda6bf494859"));
    t.push(("omen", "8e253930-4c05-31dd-1b6c-968525494517"));
    t.push(("skye", "6f2a04ca-43e0-be17-7f36-b3908627744d"));
    t.push(("yoru", "7f94d92c-4234-0a36-9646-3a87eb8b5c89"));
    t.push(("astra", "41fb69c1-4189-7b37-f117-bcaf1e96f1bf"));
    t.push(("kayo", "601dbbe7-43ce-be57-2a40-4abd24953621"));
    t.push(("chamber", "22697a3d-45bf-8dd7-4fec-84a9e28c69d7"));
    t.push(("neon", "bb2a4828-46eb-8cd1-e765-15848195d751"));
    t.push(("fade", "dade69b4-4f5a-8528-247b-219e5a1facd6"));
    t.push(("harbor", "95b78ed7-4637-86d9-7e41-71ba8c293152"));
    t.push(("gekko", "e370fa57-4757-3604-3648-499e1f642d3f"));
    t.push(("deadlock", "cc8b64c8-4b25-4ff9-6e7f-37b4da43d235"));
    t.push(("iso", "0e38b510-41a8-5780-5e8f-568b2a4f2d6c"));
    t.push(("clove", "1dbf2edd-4729-0984-3115-daa5eed44993"));
    t.push(("vyse", "efba5359-4016-a1e5-7626-b1ae76895940"));
    assert(table_view(t@) =~= agent_table());
    t
}

/// The maps by asset path, each with the name shown for it.
pub open spec fn map_name_table() -> Seq<(Seq<char>, Seq<char>)> {
    seq![
        ("/Game/Maps/Ascent/Ascent"@, "Ascent"@),
        ("/Game/Maps/Bonsai/Bonsai"@, "Split"@),
        ("/Game/Maps/Canyon/Canyon"@, "Fracture"@),
        ("/Game/Maps/Duality/Duality"@, "Bind"@),
        ("/Game/Maps/Foxtrot/Foxtrot"@, "Breeze"@),
        ("/Game/Maps/HURM/HURM_Alley/HURM_Alley"@, "District"@),
        ("/Game/Maps/HURM/HURM_Bowl/HURM_Bowl"@, "Kasbah"@),
        ("/Game/Maps/HURM/HURM_Yard/HURM_Yard"@, "Piazza"@),
        ("/Game/Maps/Jam/Jam"@, "Lotus"@),
        ("/Game/Maps/Juliett/Juliett"@, "Sunset"@),
        ("/Game/Maps/Pitt/Pitt"@, "Pearl"@),
        ("/Game/Maps/Port/Port"@, "Icebox"@),
        ("/Game/Maps/Poveglia/Range"@, "The Range"@),
        ("/Game/Maps/Triad/Triad"@, "Haven"@),
        ("/Game/Maps/Infinity/Infinity"@, "Abyss"@),
    ]
}

/// The maps by asset path, each with the name shown for it.
pub fn map_names() -> (t: Table)
    ensures
        table_view(t@) == map_name_table(),
{
    let mut t: Table = Vec::new();
    t.push(("/Game/Maps/Ascent/Ascent", "Ascent"));
    t.push(("/Game/Maps/Bonsai/Bonsai", "Split"));
    t.push(("/Game/Maps/Canyon/Canyon", "Fracture"));
    t.push(("/Game/Maps/Duality/Duality", "Bind"));
    t.push(("/Game/Maps/Foxtrot/Foxtrot", "Breeze"));
    t.push(("/Game/Maps/HURM/HURM_Alley/HURM_Alley", "District"));
    t.push(("/Game/Maps/HURM/HURM_Bowl/HURM_Bowl", "Kasbah"));
    t.push(("/Game/Maps/HURM/HURM_Yard/HURM_Yard", "Piazza"));
    t.push(("/Game/Maps/Jam/Jam", "Lotus"));
    t.push(("/Game/Maps/Juliett/Juliett", "Sunset"));
    t.push(("/Game/Maps/Pitt/Pitt", "Pearl"));
    t.push(("/Game/Maps/Port/Port", "Icebox"));
    t.push(("/Game/Maps/Poveglia/Range", "The Range"));
    t.push(("/Game/Maps/Triad/Triad", "Haven"));
    t.push(("/Game/Maps/Infinity/Infinity", "Abyss"));
    assert(table_view(t@) =~= map_name_table());
    t
}

/// The queues by identifier, each with the name shown for it.
pub open spec fn queue_name_table() -> Seq<(Seq<char>, Seq<char>)> {
    seq![
        ("competitive"@, "Rekabetçi"@),
        ("unrated"@, "Normal"@),
        ("spikerush"@, "Spike Rush"@),
        ("deathmatch"@, "Deathmatch"@),
        ("ggteam"@, "Escalation"@),
        ("newmap"@, "Yeni Harita"@),
        ("onefa"@, "Replication"@),
        ("swiftplay"@, "Swiftplay"@),
        ("hurm"@, "Team Deathmatch"@),
        ("premier"@, "Premier"@),
        ("custom"@, "Özel Oyun"@),
    ]
}

/// The queues by identifier, each with the name shown for it.
pub fn queue_names() -> (t: Table)
    ensures
        table_view(t@) == queue_name_table(),
{
    let mut t: Table = Vec::new();
    t.push(("competitive", "Rekabetçi"));
    t.push(("unrated", "Normal"));
    t.push(("spikerush", "Spike Rush"));
    t.push(("deathmatch", "Deathmatch"));
    t.push(("ggteam", "Escalation"));
    t.push(("newmap", "Yeni Harita"));
    t.push(("onefa", "Replication"));
    t.push(("swiftplay", "Swiftplay"));
    t.push(("hurm", "Team Deathmatch"));
    t.push(("premier", "Premier"));
    t.push(("custom", "Özel Oyun"));
    assert(table_view(t@) =~= queue_name_table());
    t
}

} // verus!
