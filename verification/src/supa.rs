//! Online "Challenge" parties: the records stored for a party and its scores,
//! and party codes.

use vstd::prelude::*;

use crate::text::string_of;

verus! {

/// Number of characters in a party code.
pub const CODE_LEN: usize = 6;

/// A party as stored online.
#[derive(Debug, Clone)]
pub struct Party {
    pub code: String,
    /// "public" or "private".
    pub visibility: String,
    pub max_players: i32,
    pub track_id: i64,
    pub title: String,
    pub artist: String,
    pub album: Option<String>,
    /// Clip lengths in milliseconds.
    pub schedule: Vec<i32>,
    pub host_name: String,
    pub created_at: Option<String>,
}

/// Fields a host supplies to open a party (the code is allocated for them).
#[derive(Debug, Clone)]
pub struct NewParty {
    pub code: String,
    pub visibility: String,
    pub max_players: i32,
    pub track_id: i64,
    pub title: String,
    pub artist: String,
    pub album: Option<String>,
    pub schedule: Vec<i32>,
    pub host_name: String,
}

/// One player's score in a party.
#[derive(Debug, Clone)]
pub struct Score {
    pub party_code: String,
    pub player_name: String,
    pub solved: bool,
    pub clips_used: i32,
    pub time_ms: i32,
    pub mistakes: i32,
    pub created_at: Option<String>,
}

/// The unambiguous alphabet of party codes (no 0/O/1/I/L).
pub open spec fn code_alphabet() -> Seq<char> {
    seq![
        'A', 'B', 'C', 'D', 'E', 'F', 'G', 'H', 'J', 'K', 'M', 'N', 'P', 'Q', 'R', 'S', 'T',
        'U', 'V', 'W', 'X', 'Y', 'Z', '2', '3', '4', '5', '6', '7', '8', '9',
    ]
}

/// Calls `rand::random::<u32>()`; nothing is promised of the value.
#[verifier::external_body]
fn random_u32() -> (r: u32) {
    rand::random::<u32>()
}

/// A well-formed party code: `CODE_LEN` characters, all from the alphabet.
pub open spec fn well_formed_code(code: Seq<char>) -> bool {
    code.len() == CODE_LEN && forall|i: int| 0 <= i < code.len() ==> code_alphabet().contains(
        #[trigger] code[i],
    )
}

/// The code that the random draws `draws` spell: each draw picks the letter
/// at its remainder by the alphabet's length.
pub open spec fn code_of_draws(draws: Seq<u32>) -> Seq<char> {
    Seq::new(draws.len(), |i: int| code_alphabet()[(draws[i] % 31) as int])
}

/// The code spelled by `CODE_LEN` draws is well formed.
pub proof fn lemma_drawn_code_well_formed(draws: Seq<u32>)
    requires
        draws.len() == CODE_LEN,
    ensures
        well_formed_code(code_of_draws(draws)),
{
    assert forall|i: int| 0 <= i < code_of_draws(draws).len() implies code_alphabet().contains(
        #[trigger] code_of_draws(draws)[i],
    ) by {
        let k = (draws[i] % 31) as int;
        assert(code_alphabet()[k] == code_of_draws(draws)[i]);
    }
}

/// The code that the draws `draws` spell (see `code_of_draws`).
pub fn code_from_draws(draws: &Vec<u32>) -> (r: String)
    ensures
        r@ == code_of_draws(draws@),
{
    let alphabet: Vec<char> = vec![
        'A', 'B', 'C', 'D', 'E', 'F', 'G', 'H', 'J', 'K', 'M', 'N', 'P', 'Q', 'R', 'S', 'T',
        'U', 'V', 'W', 'X', 'Y', 'Z', '2', '3', '4', '5', '6', '7', '8', '9',
    ];
    assert(alphabet@ =~= code_alphabet());
    let mut out: Vec<char> = Vec::new();
    let mut i: usize = 0;
    while i < draws.len()
        invariant
            i <= draws.len(),
            alphabet@ == code_alphabet(),
            out@ =~= code_of_draws(draws@).take(i as int),
        decreases draws.len() - i,
    {
        let idx = (draws[i] as usize) % alphabet.len();
        out.push(alphabet[idx]);
        i = i + 1;
    }
    assert(code_of_draws(draws@).take(draws.len() as int) =~= code_of_draws(draws@));
    string_of(&out)
}

/// A random, unambiguous party code like `7Q2F9K`: `CODE_LEN` random draws,
/// spelled as `code_from_draws` spells them.
pub fn generate_code() -> (r: String)
    ensures
        well_formed_code(r@),
        exists|draws: Seq<u32>| draws.len() == CODE_LEN && r@ == #[trigger] code_of_draws(draws),
{
    let mut draws: Vec<u32> = Vec::new();
    let mut i: usize = 0;
    while i < CODE_LEN
        invariant
            i <= CODE_LEN,
            draws@.len() == i,
        decreases CODE_LEN - i,
    {
        draws.push(random_u32());
        i = i + 1;
    }
    proof {
        lemma_drawn_code_well_formed(draws@);
    }
    code_from_draws(&draws)
}

/// How many fresh codes hosting tries before it gives up.
pub const CREATE_TRIES: u32 = 6;

/// What hosting does once an insert of a new party has answered.
pub enum HostStep {
    /// The party was created.
    Created(Party),
    /// The code was already taken: try again with a fresh one.
    Retry,
    /// Every try hit a taken code.
    GiveUp,
}

/// The step after try number `tries` (counting from 1) answered `created`
/// (`None` when the code was already taken).
pub fn after_create_attempt(tries: u32, created: Option<Party>) -> (r: HostStep)
    ensures
        match created {
            Some(p) => r == HostStep::Created(p),
            None => if tries < CREATE_TRIES {
                r is Retry
            } else {
                r is GiveUp
            },
        },
{
    match created {
        Some(p) => HostStep::Created(p),
        None => if tries < CREATE_TRIES {
            HostStep::Retry
        } else {
            HostStep::GiveUp
        },
    }
}


} // verus!
