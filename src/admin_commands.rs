use vstd::prelude::*;

use crate::models::DefinitionError;
use crate::models_raw::RawStateMachine;
use crate::riddles::{Riddle, Riddles};
use crate::state_machine::{valid_machine, StateMachine};

verus! {

/// The code an author gives to have a random code chosen instead.
pub const RANDOM_RIDDLE_CODE: &'static str = "RANDOM";

/// The code an author asked for: `None` when a random one is wanted.
pub fn requested_code(text: &str) -> (r: Option<String>)
    ensures
        r is None <==> text@ == RANDOM_RIDDLE_CODE@,
        r matches Some(c) ==> c@ == text@,
{
    let given = text.to_owned();
    if given == RANDOM_RIDDLE_CODE.to_owned() {
        None
    } else {
        Some(given)
    }
}

/// Where an author stands in creating a riddle.
#[derive(Clone, Debug, PartialEq, Eq)]
pub enum NewRiddleState {
    /// The next message is the code (or the request for a random one).
    Code,
    /// The next message is the name.
    Name { code: Option<String> },
    /// The next message is the description.
    Description { code: Option<String>, name: String },
    /// The next message is the riddle document.
    StateMachine { code: Option<String>, name: String, description: String },
}

/// Where an administrator's chat stands.
#[derive(Clone, Debug, PartialEq, Eq)]
pub enum AdminDialogue {
    Idle,
    NewRiddle(NewRiddleState),
    /// The next message is the code of a riddle to withdraw.
    RemoveRiddle,
}

/// The step after an author gave `text` as the code of a new riddle: asking
/// for the name, or nothing when a riddle already has that code (the author
/// is then asked for a code again).
pub fn new_riddle_code(riddles: &Riddles, text: &str) -> (r: Option<NewRiddleState>)
    ensures
        r is None <==> riddles.has_code(text@),
        r matches Some(s) ==> (s matches NewRiddleState::Name { code } && (code is None <==> text@
            == RANDOM_RIDDLE_CODE@) && (code matches Some(c) ==> c@ == text@)),
{
    if riddles.contains(text) {
        None
    } else {
        Some(NewRiddleState::Name { code: requested_code(text) })
    }
}

/// Why a riddle could not be published.
#[derive(Clone, Debug, PartialEq, Eq)]
pub enum PublishError {
    /// The document does not describe a valid state machine.
    Invalid(DefinitionError),
    /// Another riddle already has the code.
    CodeTaken,
}

/// Compiles `doc` and publishes it under `code` with the given name,
/// description and author.
pub fn publish_riddle(
    riddles: &mut Riddles,
    code: String,
    name: String,
    description: String,
    creator: u64,
    doc: &RawStateMachine,
) -> (r: Result<(), PublishError>)
    ensures
        r matches Err(PublishError::Invalid(_)) <==> !valid_machine(doc@),
        r matches Err(PublishError::CodeTaken) <==> valid_machine(doc@) && old(riddles).has_code(code@),
        r is Err ==> final(riddles).codes() == old(riddles).codes(),
        r is Ok ==> final(riddles).codes() == old(riddles).codes().push(code@),
        r is Ok ==> final(riddles).riddle_for(code@).state_machine@ == doc@,
        r is Ok ==> final(riddles).riddle_for(code@).name == name,
        r is Ok ==> final(riddles).riddle_for(code@).description == description,
        r is Ok ==> final(riddles).riddle_for(code@).creator == creator,
        forall|c: Seq<char>|
            c != code@ && old(riddles).has_code(c) ==> #[trigger] final(riddles).riddle_for(c)
                == old(riddles).riddle_for(c),
{
    let state_machine = match StateMachine::new(doc) {
        Ok(m) => m,
        Err(e) => {
            return Err(PublishError::Invalid(e));
        },
    };
    let riddle = Riddle { name, description, state_machine, creator };
    match riddles.insert(code, riddle) {
        Ok(()) => Ok(()),
        Err(_) => Err(PublishError::CodeTaken),
    }
}


/// The value of a sequence of decimal digits.
pub open spec fn digits_value(d: Seq<char>) -> int
    decreases d.len(),
{
    if d.len() == 0 {
        0
    } else {
        digits_value(d.drop_last()) * 10 + (d.last() as int - '0' as int)
    }
}

/// One or more ASCII digits.
pub open spec fn is_digits(d: Seq<char>) -> bool {
    d.len() > 0 && forall|i: int| 0 <= i < d.len() ==> '0' <= #[trigger] d[i] <= '9'
}

/// The number that `s` spells: an optional `+` followed by digits whose
/// value fits in 64 bits.
pub open spec fn decimal_u64(s: Seq<char>) -> Option<u64> {
    let d = if s.len() > 0 && s[0] == '+' {
        s.drop_first()
    } else {
        s
    };
    if is_digits(d) && digits_value(d) <= u64::MAX as int {
        Some(digits_value(d) as u64)
    } else {
        None
    }
}

/// The pieces of `s` between commas, in order, empty pieces included.
pub open spec fn comma_split(s: Seq<char>) -> Seq<Seq<char>>
    decreases s.len(),
{
    if s.len() == 0 {
        seq![Seq::empty()]
    } else {
        let rest = comma_split(s.drop_last());
        if s.last() == ',' {
            rest.push(Seq::empty())
        } else {
            rest.update(rest.len() - 1, rest.last().push(s.last()))
        }
    }
}

/// The ids spelt by `pieces`, in order, skipping pieces that spell none.
pub open spec fn admin_ids(pieces: Seq<Seq<char>>) -> Seq<u64>
    decreases pieces.len(),
{
    if pieces.len() == 0 {
        Seq::empty()
    } else {
        let before = admin_ids(pieces.drop_last());
        match decimal_u64(pieces.last()) {
            Some(id) => before.push(id),
            None => before,
        }
    }
}

/// Relies on `str::split` with a `char` pattern: the substrings between
/// commas, in order, with an empty one wherever two commas meet or one
/// stands at an end.
#[verifier::external_body]
fn split_commas(s: &str) -> (r: Vec<String>)
    ensures
        r@.map_values(|p: String| p@) == comma_split(s@),
{
    s.split(',').map(|p| p.to_owned()).collect()
}

/// Relies on `u64::from_str` (through `str::parse`): an optional `+` and
/// ASCII digits whose value fits in a `u64`; anything else is an error.
#[verifier::external_body]
fn parse_u64(s: &str) -> (r: Option<u64>)
    ensures
        r == decimal_u64(s@),
{
    s.parse::<u64>().ok()
}

/// The user ids in a comma-separated list, in order; a piece that is not an
/// id is skipped.
pub fn parse_admins(list: &str) -> (r: Vec<u64>)
    ensures
        r@ == admin_ids(comma_split(list@)),
{
    let pieces = split_commas(list);
    let ghost ps = comma_split(list@);
    let mut ids: Vec<u64> = Vec::new();
    let mut i: usize = 0;
    while i < pieces.len()
        invariant
            i <= pieces.len(),
            ps == pieces@.map_values(|p: String| p@),
            ids@ == admin_ids(ps.take(i as int)),
        decreases pieces.len() - i,
    {
        assert(ps.take(i + 1).drop_last() =~= ps.take(i as int));
        assert(ps.take(i + 1).last() == pieces@[i as int]@);
        match parse_u64(pieces[i].as_str()) {
            Some(id) => ids.push(id),
            None => {},
        }
        i = i + 1;
    }
    assert(ps.take(i as int) =~= ps);
    ids
}

} // verus!
