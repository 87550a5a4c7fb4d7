//! The games that are known, by their ids, their LOOT folders and their plugin directories.

use crate::errors::{ErrorView, LootError};
use crate::paths::{path_at, JoinedPath, PathView};
use crate::text::{is_whitespace, lemma_trimmed_padding, same_text, trim, trimmed};
use vstd::prelude::*;

verus! {

/// A supported game.
#[derive(Debug, Clone, Copy, PartialEq, Eq, Structural)]
pub enum GameType {
    SkyrimSE,
    Skyrim,
    SkyrimVR,
    Fallout4,
    Fallout4VR,
    FalloutNV,
    Fallout3,
    Morrowind,
    Oblivion,
    OblivionRemastered,
    Starfield,
    OpenMW,
}

/// The game that an id stands for.
pub open spec fn game_named(id: Seq<char>) -> Option<GameType> {
    if id == "Skyrim Special Edition"@ || id == "SkyrimSE"@ || id == "SSE"@ {
        Some(GameType::SkyrimSE)
    } else if id == "Skyrim"@ || id == "TES5"@ {
        Some(GameType::Skyrim)
    } else if id == "Skyrim VR"@ || id == "SkyrimVR"@ {
        Some(GameType::SkyrimVR)
    } else if id == "Fallout4"@ || id == "Fallout 4"@ {
        Some(GameType::Fallout4)
    } else if id == "Fallout4VR"@ || id == "Fallout 4 VR"@ {
        Some(GameType::Fallout4VR)
    } else if id == "FalloutNV"@ || id == "Fallout New Vegas"@ || id == "FNV"@ {
        Some(GameType::FalloutNV)
    } else if id == "Fallout3"@ || id == "Fallout 3"@ {
        Some(GameType::Fallout3)
    } else if id == "Morrowind"@ {
        Some(GameType::Morrowind)
    } else if id == "Oblivion"@ {
        Some(GameType::Oblivion)
    } else if id == "Oblivion Remastered"@ || id == "OblivionRemastered"@ {
        Some(GameType::OblivionRemastered)
    } else if id == "Starfield"@ {
        Some(GameType::Starfield)
    } else if id == "OpenMW"@ {
        Some(GameType::OpenMW)
    } else {
        None
    }
}

/// What parsing a game id gives: the game, or a failure that quotes the id as it was given.
pub open spec fn parsed_game_type(s: Seq<char>) -> Result<GameType, ErrorView> {
    match game_named(trimmed(s)) {
        Some(g) => Ok(g),
        None => Err(ErrorView::UnknownGameType(s)),
    }
}

/// The game that `s` names, whitespace round the name aside.
pub fn parse_game_type(s: &str) -> (r: Result<GameType, LootError>)
    ensures
        match r {
            Ok(g) => parsed_game_type(s@) == Ok::<GameType, ErrorView>(g),
            Err(e) => parsed_game_type(s@) == Err::<GameType, ErrorView>(e@),
        },
{
    let id = trim(s);
    let t = id.as_str();
    if same_text(t, "Skyrim Special Edition") || same_text(t, "SkyrimSE") || same_text(t, "SSE") {
        Ok(GameType::SkyrimSE)
    } else if same_text(t, "Skyrim") || same_text(t, "TES5") {
        Ok(GameType::Skyrim)
    } else if same_text(t, "Skyrim VR") || same_text(t, "SkyrimVR") {
        Ok(GameType::SkyrimVR)
    } else if same_text(t, "Fallout4") || same_text(t, "Fallout 4") {
        Ok(GameType::Fallout4)
    } else if same_text(t, "Fallout4VR") || same_text(t, "Fallout 4 VR") {
        Ok(GameType::Fallout4VR)
    } else if same_text(t, "FalloutNV") || same_text(t, "Fallout New Vegas") || same_text(
        t,
        "FNV",
    ) {
        Ok(GameType::FalloutNV)
    } else if same_text(t, "Fallout3") || same_text(t, "Fallout 3") {
        Ok(GameType::Fallout3)
    } else if same_text(t, "Morrowind") {
        Ok(GameType::Morrowind)
    } else if same_text(t, "Oblivion") {
        Ok(GameType::Oblivion)
    } else if same_text(t, "Oblivion Remastered") || same_text(t, "OblivionRemastered") {
        Ok(GameType::OblivionRemastered)
    } else if same_text(t, "Starfield") {
        Ok(GameType::Starfield)
    } else if same_text(t, "OpenMW") {
        Ok(GameType::OpenMW)
    } else {
        Err(LootError::UnknownGameType(s.to_owned()))
    }
}

/// The game an id names does not depend on whitespace round the id.
pub proof fn law_game_id_padding(id: Seq<char>, before: Seq<char>, after: Seq<char>)
    requires
        forall|i: int| 0 <= i < before.len() ==> is_whitespace(#[trigger] before[i]),
        forall|i: int| 0 <= i < after.len() ==> is_whitespace(#[trigger] after[i]),
    ensures
        parsed_game_type(before + id + after) is Ok == parsed_game_type(id) is Ok,
        parsed_game_type(id) matches Ok(g) ==> parsed_game_type(before + id + after) == Ok::<
            GameType,
            ErrorView,
        >(g),
{
    lemma_trimmed_padding(id, before, after);
}

/// The folder under the LOOT data root that belongs to a game.
pub open spec fn loot_folder(g: GameType) -> Seq<char> {
    match g {
        GameType::SkyrimSE => "Skyrim Special Edition"@,
        GameType::Skyrim => "Skyrim"@,
        GameType::SkyrimVR => "Skyrim VR"@,
        GameType::Fallout4 => "Fallout4"@,
        GameType::Fallout4VR => "Fallout4 VR"@,
        GameType::FalloutNV => "FalloutNV"@,
        GameType::Fallout3 => "Fallout3"@,
        GameType::Morrowind => "Morrowind"@,
        GameType::Oblivion => "Oblivion"@,
        GameType::OblivionRemastered => "Oblivion Remastered"@,
        GameType::Starfield => "Starfield"@,
        GameType::OpenMW => "OpenMW"@,
    }
}

/// The folder under the LOOT data root that belongs to a game.
pub fn default_loot_folder(g: GameType) -> (r: String)
    ensures
        r@ == loot_folder(g),
{
    match g {
        GameType::SkyrimSE => "Skyrim Special Edition".to_owned(),
        GameType::Skyrim => "Skyrim".to_owned(),
        GameType::SkyrimVR => "Skyrim VR".to_owned(),
        GameType::Fallout4 => "Fallout4".to_owned(),
        GameType::Fallout4VR => "Fallout4 VR".to_owned(),
        GameType::FalloutNV => "FalloutNV".to_owned(),
        GameType::Fallout3 => "Fallout3".to_owned(),
        GameType::Morrowind => "Morrowind".to_owned(),
        GameType::Oblivion => "Oblivion".to_owned(),
        GameType::OblivionRemastered => "Oblivion Remastered".to_owned(),
        GameType::Starfield => "Starfield".to_owned(),
        GameType::OpenMW => "OpenMW".to_owned(),
    }
}

/// The directory below the game's own that holds its plugins.
pub open spec fn data_directory(g: GameType) -> Seq<char> {
    match g {
        GameType::Morrowind => "Data Files"@,
        GameType::OpenMW => "resources/vfs"@,
        GameType::OblivionRemastered => "OblivionRemastered/Content/Dev/ObvData/Data"@,
        _ => "Data"@,
    }
}

/// The main plugin directory of a game.
pub open spec fn data_root(g: GameType, game_path: Seq<char>) -> PathView {
    path_at(game_path).join(data_directory(g))
}

/// The main plugin directory of a game that is installed at `game_path`.
pub fn plugins_data_root(g: GameType, game_path: &str) -> (r: JoinedPath)
    ensures
        r@ == data_root(g, game_path@),
{
    let root = JoinedPath::at(game_path);
    match g {
        GameType::Morrowind => root.join("Data Files"),
        GameType::OpenMW => root.join("resources/vfs"),
        GameType::OblivionRemastered => root.join("OblivionRemastered/Content/Dev/ObvData/Data"),
        _ => root.join("Data"),
    }
}

/// How long the ids are, and that those of one length differ.
proof fn lemma_ids_differ()
    ensures
        "Skyrim Special Edition"@.len() == 22,
        "SkyrimSE"@.len() == 8,
        "SSE"@.len() == 3,
        "Skyrim"@.len() == 6,
        "TES5"@.len() == 4,
        "Skyrim VR"@.len() == 9,
        "SkyrimVR"@.len() == 8,
        "Fallout4"@.len() == 8,
        "Fallout 4"@.len() == 9,
        "Fallout4VR"@.len() == 10,
        "Fallout 4 VR"@.len() == 12,
        "FalloutNV"@.len() == 9,
        "Fallout New Vegas"@.len() == 17,
        "FNV"@.len() == 3,
        "Fallout3"@.len() == 8,
        "Fallout 3"@.len() == 9,
        "Morrowind"@.len() == 9,
        "Oblivion"@.len() == 8,
        "Oblivion Remastered"@.len() == 19,
        "OblivionRemastered"@.len() == 18,
        "Starfield"@.len() == 9,
        "OpenMW"@.len() == 6,
        "SkyrimSE"@ != "SkyrimVR"@,
        "SkyrimSE"@ != "Fallout4"@,
        "SkyrimSE"@ != "Fallout3"@,
        "SkyrimSE"@ != "Oblivion"@,
        "SSE"@ != "FNV"@,
        "Skyrim"@ != "OpenMW"@,
        "Skyrim VR"@ != "Fallout 4"@,
        "Skyrim VR"@ != "FalloutNV"@,
        "Skyrim VR"@ != "Fallout 3"@,
        "Skyrim VR"@ != "Morrowind"@,
        "Skyrim VR"@ != "Starfield"@,
        "SkyrimVR"@ != "Fallout4"@,
        "SkyrimVR"@ != "Fallout3"@,
        "SkyrimVR"@ != "Oblivion"@,
        "Fallout4"@ != "Fallout3"@,
        "Fallout4"@ != "Oblivion"@,
        "Fallout 4"@ != "FalloutNV"@,
        "Fallout 4"@ != "Fallout 3"@,
        "Fallout 4"@ != "Morrowind"@,
        "Fallout 4"@ != "Starfield"@,
        "FalloutNV"@ != "Fallout 3"@,
        "FalloutNV"@ != "Morrowind"@,
        "FalloutNV"@ != "Starfield"@,
        "Fallout3"@ != "Oblivion"@,
        "Fallout 3"@ != "Morrowind"@,
        "Fallout 3"@ != "Starfield"@,
        "Morrowind"@ != "Starfield"@,
{
    reveal_strlit("Skyrim Special Edition");
    reveal_strlit("SkyrimSE");
    reveal_strlit("SSE");
    reveal_strlit("Skyrim");
    reveal_strlit("TES5");
    reveal_strlit("Skyrim VR");
    reveal_strlit("SkyrimVR");
    reveal_strlit("Fallout4");
    reveal_strlit("Fallout 4");
    reveal_strlit("Fallout4VR");
    reveal_strlit("Fallout 4 VR");
    reveal_strlit("FalloutNV");
    reveal_strlit("Fallout New Vegas");
    reveal_strlit("FNV");
    reveal_strlit("Fallout3");
    reveal_strlit("Fallout 3");
    reveal_strlit("Morrowind");
    reveal_strlit("Oblivion");
    reveal_strlit("Oblivion Remastered");
    reveal_strlit("OblivionRemastered");
    reveal_strlit("Starfield");
    reveal_strlit("OpenMW");
    assert("SkyrimSE"@[6] != "SkyrimVR"@[6]);
    assert("SkyrimSE"@[0] != "Fallout4"@[0]);
    assert("SkyrimSE"@[0] != "Fallout3"@[0]);
    assert("SkyrimSE"@[0] != "Oblivion"@[0]);
    assert("SSE"@[0] != "FNV"@[0]);
    assert("Skyrim"@[0] != "OpenMW"@[0]);
    assert("Skyrim VR"@[0] != "Fallout 4"@[0]);
    assert("Skyrim VR"@[0] != "FalloutNV"@[0]);
    assert("Skyrim VR"@[0] != "Fallout 3"@[0]);
    assert("Skyrim VR"@[0] != "Morrowind"@[0]);
    assert("Skyrim VR"@[1] != "Starfield"@[1]);
    assert("SkyrimVR"@[0] != "Fallout4"@[0]);
    assert("SkyrimVR"@[0] != "Fallout3"@[0]);
    assert("SkyrimVR"@[0] != "Oblivion"@[0]);
    assert("Fallout4"@[7] != "Fallout3"@[7]);
    assert("Fallout4"@[0] != "Oblivion"@[0]);
    assert("Fallout 4"@[7] != "FalloutNV"@[7]);
    assert("Fallout 4"@[8] != "Fallout 3"@[8]);
    assert("Fallout 4"@[0] != "Morrowind"@[0]);
    assert("Fallout 4"@[0] != "Starfield"@[0]);
    assert("FalloutNV"@[7] != "Fallout 3"@[7]);
    assert("FalloutNV"@[0] != "Morrowind"@[0]);
    assert("FalloutNV"@[0] != "Starfield"@[0]);
    assert("Fallout3"@[0] != "Oblivion"@[0]);
    assert("Fallout 3"@[0] != "Morrowind"@[0]);
    assert("Fallout 3"@[0] != "Starfield"@[0]);
    assert("Morrowind"@[0] != "Starfield"@[0]);
}

/// Each game is named by its ids and by no other text; every other text names no game.
pub proof fn law_game_ids(id: Seq<char>)
    ensures
        game_named(id) == Some(GameType::SkyrimSE) <==> id == "Skyrim Special Edition"@ || id == "SkyrimSE"@ || id == "SSE"@,
        game_named(id) == Some(GameType::Skyrim) <==> id == "Skyrim"@ || id == "TES5"@,
        game_named(id) == Some(GameType::SkyrimVR) <==> id == "Skyrim VR"@ || id == "SkyrimVR"@,
        game_named(id) == Some(GameType::Fallout4) <==> id == "Fallout4"@ || id == "Fallout 4"@,
        game_named(id) == Some(GameType::Fallout4VR) <==> id == "Fallout4VR"@ || id == "Fallout 4 VR"@,
        game_named(id) == Some(GameType::FalloutNV) <==> id == "FalloutNV"@ || id == "Fallout New Vegas"@ || id == "FNV"@,
        game_named(id) == Some(GameType::Fallout3) <==> id == "Fallout3"@ || id == "Fallout 3"@,
        game_named(id) == Some(GameType::Morrowind) <==> id == "Morrowind"@,
        game_named(id) == Some(GameType::Oblivion) <==> id == "Oblivion"@,
        game_named(id) == Some(GameType::OblivionRemastered) <==> id == "Oblivion Remastered"@ || id == "OblivionRemastered"@,
        game_named(id) == Some(GameType::Starfield) <==> id == "Starfield"@,
        game_named(id) == Some(GameType::OpenMW) <==> id == "OpenMW"@,
{
    lemma_ids_differ();
}

/// A game is found by its id, whitespace round it aside; where there is none, the failure holds the
/// text as it was given.
pub proof fn law_games_are_found(s: Seq<char>, g: GameType)
    ensures
        parsed_game_type(s) == Ok::<GameType, ErrorView>(g) <==> game_named(trimmed(s)) == Some(g),
        parsed_game_type(s) is Err <==> game_named(trimmed(s)) is None,
        parsed_game_type(s) matches Err(e) ==> e == ErrorView::UnknownGameType(s),
{
}

/// The folder of each game. But for Fallout 4 VR it is an id of the game.
pub proof fn law_game_folders(g: GameType)
    ensures
        g != GameType::Fallout4VR ==> game_named(loot_folder(g)) == Some(g),
        g == GameType::SkyrimSE ==> loot_folder(g) == "Skyrim Special Edition"@,
        g == GameType::Skyrim ==> loot_folder(g) == "Skyrim"@,
        g == GameType::SkyrimVR ==> loot_folder(g) == "Skyrim VR"@,
        g == GameType::Fallout4 ==> loot_folder(g) == "Fallout4"@,
        g == GameType::Fallout4VR ==> loot_folder(g) == "Fallout4 VR"@,
        g == GameType::FalloutNV ==> loot_folder(g) == "FalloutNV"@,
        g == GameType::Fallout3 ==> loot_folder(g) == "Fallout3"@,
        g == GameType::Morrowind ==> loot_folder(g) == "Morrowind"@,
        g == GameType::Oblivion ==> loot_folder(g) == "Oblivion"@,
        g == GameType::OblivionRemastered ==> loot_folder(g) == "Oblivion Remastered"@,
        g == GameType::Starfield ==> loot_folder(g) == "Starfield"@,
        g == GameType::OpenMW ==> loot_folder(g) == "OpenMW"@,
{
    lemma_ids_differ();
}

/// The plugins of a game are in one directory below the game's own: `Data` but for three games.
pub proof fn law_plugin_directories(g: GameType, game_path: Seq<char>)
    ensures
        data_root(g, game_path).base == game_path,
        data_root(g, game_path).parts.len() == 1,
        g == GameType::Morrowind ==> data_root(g, game_path).parts[0] == "Data Files"@,
        g == GameType::OpenMW ==> data_root(g, game_path).parts[0] == "resources/vfs"@,
        g == GameType::OblivionRemastered ==> data_root(g, game_path).parts[0]
            == "OblivionRemastered/Content/Dev/ObvData/Data"@,
        g != GameType::Morrowind && g != GameType::OpenMW && g != GameType::OblivionRemastered
            ==> data_root(g, game_path).parts[0] == "Data"@,
{
}

} // verus!
