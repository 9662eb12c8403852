//! Where a cmd-click on a name sends the window, once the lookup has answered.
//!
//! A language server's answer is not a guess and is not ranked at all: one place is a jump,
//! several are offered. The repo search's answer is a guess, and is treated as one: when a
//! single line reads as the definition and nothing else comes near it, the click opens it;
//! when several are plausible the palette offers them and the person picks.

use vstd::prelude::*;

use crate::definition_ranking::{ContentMatch, Ranked, DEFINES};
use crate::paths::{after_last_slash, file_name_of};
use crate::text::{decimal, push_decimal};

verus! {

/// A place a language server named: a file and a line, and no text.
#[derive(Debug)]
pub struct LspLocation {
    pub file_path: String,
    pub line_number: usize,
}

/// Where a finished lookup sends the window.
#[derive(Debug)]
pub enum Landing {
    /// The repo does not hold the name anywhere.
    Nowhere,
    /// One place: opened at once.
    Straight(ContentMatch),
    /// Several are plausible. The palette offers them all rather than picking one.
    Offer(Vec<ContentMatch>),
}

/// How a place the server named reads as a row: the file's name and the line.
pub open spec fn row_words(file_path: Seq<char>, line_number: nat) -> Seq<char> {
    after_last_slash(file_path) + ":"@ + decimal(line_number)
}

/// A place the server named, as a row the palette can offer: read by the file's name and the
/// line number, with the path underneath saying which `mod.rs` this one is.
pub fn row_of(found: LspLocation) -> (row: ContentMatch)
    ensures
        row.line@ == row_words(found.file_path@, found.line_number as nat),
        row.file_path == found.file_path,
        row.line_number == found.line_number,
{
    let mut line = String::from_str(file_name_of(found.file_path.as_str()));
    line.append(":");
    push_decimal(&mut line, found.line_number as u64);
    ContentMatch { line, file_path: found.file_path, line_number: found.line_number }
}

/// Whether a row is the one [`row_of`] makes of a place.
pub open spec fn row_of_place(row: ContentMatch, place: LspLocation) -> bool {
    &&& row.line@ == row_words(place.file_path@, place.line_number as nat)
    &&& row.file_path == place.file_path
    &&& row.line_number == place.line_number
}

/// Where a server's answer sends the window. A server that answered at all is taken at its
/// word - no ranking, no guessing. One place is the place; several are the several the
/// language really has, and those are a choice.
pub fn landing_of_locations(locations: Vec<LspLocation>) -> (landing: Landing)
    ensures
        locations@.len() == 1 ==> (landing matches Landing::Straight(row) && row_of_place(
            row,
            locations@[0],
        )),
        locations@.len() != 1 ==> (landing matches Landing::Offer(rows) && rows@.len()
            == locations@.len() && forall|k: int|
            0 <= k < rows@.len() ==> row_of_place(#[trigger] rows@[k], locations@[k])),
{
    let ghost places = locations@;
    let mut locations = locations;
    let mut back_to_front: Vec<ContentMatch> = Vec::new();
    while locations.len() > 0
        invariant
            locations@ == places.take(locations@.len() as int),
            locations@.len() + back_to_front@.len() == places.len(),
            forall|k: int|
                0 <= k < back_to_front@.len() ==> row_of_place(
                    #[trigger] back_to_front@[k],
                    places[places.len() - 1 - k],
                ),
        decreases locations.len(),
    {
        let place = locations.pop().unwrap();
        let ghost at = locations@.len();
        assert(place == places[at as int]);
        back_to_front.push(row_of(place));
        assert(locations@ =~= places.take(locations@.len() as int));
    }
    let mut rows: Vec<ContentMatch> = Vec::new();
    while back_to_front.len() > 0
        invariant
            back_to_front@.len() + rows@.len() == places.len(),
            forall|k: int|
                0 <= k < back_to_front@.len() ==> row_of_place(
                    #[trigger] back_to_front@[k],
                    places[places.len() - 1 - k],
                ),
            forall|k: int| 0 <= k < rows@.len() ==> row_of_place(#[trigger] rows@[k], places[k]),
        decreases back_to_front.len(),
    {
        let row = back_to_front.pop().unwrap();
        rows.push(row);
    }
    if rows.len() == 1 {
        let row = rows.pop().unwrap();
        return Landing::Straight(row);
    }
    Landing::Offer(rows)
}

/// The hits of a ranking, in its order.
pub open spec fn hits_of(ranked: Seq<Ranked>) -> Seq<ContentMatch> {
    ranked.map_values(|r: Ranked| r.found)
}

/// Whether a ranking's best hit is to be jumped to: it reads as a definition, and nothing
/// after it scored as well.
pub open spec fn jumps_to_best(ranked: Seq<Ranked>) -> bool {
    &&& ranked.len() > 0
    &&& ranked[0].score >= DEFINES
    &&& (ranked.len() < 2 || ranked[1].score < ranked[0].score)
}

/// The decision the ranking is there to make.
///
/// A jump is only taken without asking when one line reads as a definition and nothing else
/// scored as well as it did. Two lines that both read as definitions are a choice, not an
/// answer, and so is a pile of mentions with no definition among them.
pub fn landing_of(ranked: Vec<Ranked>) -> (landing: Landing)
    ensures
        ranked@.len() == 0 ==> landing is Nowhere,
        jumps_to_best(ranked@) ==> (landing matches Landing::Straight(found) && found
            == ranked@[0].found),
        ranked@.len() > 0 && !jumps_to_best(ranked@) ==> (landing matches Landing::Offer(found)
            && found@ == hits_of(ranked@)),
{
    if ranked.len() == 0 {
        return Landing::Nowhere;
    }
    let alone = ranked.len() < 2 || ranked[1].score < ranked[0].score;
    if ranked[0].reads_as_a_definition() && alone {
        let mut ranked = ranked;
        let best = ranked.remove(0);
        return Landing::Straight(best.found);
    }
    let ghost all = ranked@;
    let mut ranked = ranked;
    let mut back_to_front: Vec<ContentMatch> = Vec::new();
    while ranked.len() > 0
        invariant
            ranked@ == all.take(ranked@.len() as int),
            ranked@.len() + back_to_front@.len() == all.len(),
            forall|k: int|
                0 <= k < back_to_front@.len() ==> #[trigger] back_to_front@[k] == all[all.len() - 1
                    - k].found,
        decreases ranked.len(),
    {
        let r = ranked.pop().unwrap();
        back_to_front.push(r.found);
        assert(ranked@ =~= all.take(ranked@.len() as int));
    }
    let mut found: Vec<ContentMatch> = Vec::new();
    while back_to_front.len() > 0
        invariant
            back_to_front@.len() + found@.len() == all.len(),
            forall|k: int|
                0 <= k < back_to_front@.len() ==> #[trigger] back_to_front@[k] == all[all.len() - 1
                    - k].found,
            forall|k: int| 0 <= k < found@.len() ==> #[trigger] found@[k] == all[k].found,
        decreases back_to_front.len(),
    {
        let f = back_to_front.pop().unwrap();
        found.push(f);
    }
    assert(found@ =~= hits_of(all));
    Landing::Offer(found)
}

/// What the language server behind a file can be asked, as its status says.
#[derive(Clone, Copy, PartialEq, Eq, Debug, Structural)]
pub enum AsksAbout {
    /// It is still indexing the project, and would answer with nothing.
    Wait,
    /// It serves the file.
    Server,
    /// Nothing serves the file.
    Elsewhere,
}

/// What a lookup does first.
#[derive(Clone, Copy, PartialEq, Eq, Debug, Structural)]
pub enum Lookup {
    /// Say the server is still starting, rather than land somewhere a search guessed at.
    Indexing,
    /// Ask the server, and search the repo if it has nothing to say.
    AskServer,
    /// Search the repo.
    Search,
}

/// What a lookup does first: a pane that asks no server searches, and one that does asks its
/// server - unless the server is still indexing, which is said rather than guessed around.
pub fn first_question(asks_a_server: bool, asks: AsksAbout) -> (lookup: Lookup)
    ensures
        lookup == if !asks_a_server {
            Lookup::Search
        } else {
            match asks {
                AsksAbout::Wait => Lookup::Indexing,
                AsksAbout::Server => Lookup::AskServer,
                AsksAbout::Elsewhere => Lookup::Search,
            }
        },
{
    if !asks_a_server {
        return Lookup::Search;
    }
    match asks {
        AsksAbout::Wait => Lookup::Indexing,
        AsksAbout::Server => Lookup::AskServer,
        AsksAbout::Elsewhere => Lookup::Search,
    }
}

/// Whether a server's answer is the answer: it answered, with somewhere. A server that erred
/// or named nowhere leaves the repo search to answer - `None`.
pub fn server_answer(answered: Option<Vec<LspLocation>>) -> (answer: Option<Vec<LspLocation>>)
    ensures
        match answered {
            Some(places) => if places@.len() > 0 {
                answer == Some(places)
            } else {
                answer is None
            },
            None => answer is None,
        },
{
    match answered {
        Some(places) => if places.len() > 0 {
            Some(places)
        } else {
            None
        },
        None => None,
    }
}

/// Where the window goes once a lookup has landed.
#[derive(Debug)]
pub enum LandAction {
    /// Say this: silence would read as the click having missed.
    Say(String),
    /// Open the file at the line, marking the name looked up.
    OpenFile { file_path: String, line: usize, query: String },
    /// Offer the candidates in the palette, for the name looked up.
    Offer { word: String, candidates: Vec<ContentMatch> },
}

/// A lookup that has come back: the name looked up, and where the answer sends the window.
#[derive(Debug)]
pub struct LookedUp {
    pub word: String,
    pub landing: Landing,
}

/// Where a lookup's answer sends the window - see [`land`].
pub open spec fn landed(word: String, landing: Landing, action: LandAction) -> bool {
    match landing {
        Landing::Nowhere => action matches LandAction::Say(said) && said@ == "nothing in the repo holds "@
            + word@,
        Landing::Straight(found) => action == (LandAction::OpenFile {
            file_path: found.file_path,
            line: found.line_number,
            query: word,
        }),
        Landing::Offer(candidates) => action == (LandAction::Offer { word, candidates }),
    }
}

/// Send the window where the answer says, whichever kind of click asked.
pub fn land(word: String, landing: Landing) -> (action: LandAction)
    ensures
        landed(word, landing, action),
{
    match landing {
        Landing::Nowhere => {
            let mut said = String::from_str("nothing in the repo holds ");
            said.append(word.as_str());
            LandAction::Say(said)
        },
        Landing::Straight(found) => LandAction::OpenFile {
            file_path: found.file_path,
            line: found.line_number,
            query: word,
        },
        Landing::Offer(candidates) => LandAction::Offer { word, candidates },
    }
}

} // verus!
