//! The names of agents.

use vstd::prelude::*;

verus! {

/// A digit of a number in base sixteen, in lower case.
pub open spec fn is_hex_digit(c: char) -> bool {
    ('0' <= c && c <= '9') || ('a' <= c && c <= 'f')
}

/// The text of a random UUID: five groups of hexadecimal digits with hyphens
/// between them, of which one digit tells the version and one the variant.
pub open spec fn is_random_uuid(text: Seq<char>) -> bool {
    &&& text.len() == 36
    &&& forall|i: int|
        0 <= i < 36 ==> if i == 8 || i == 13 || i == 18 || i == 23 {
            #[trigger] text[i] == '-'
        } else {
            is_hex_digit(text[i])
        }
    &&& text[14] == '4'
    &&& text[19] == '8' || text[19] == '9' || text[19] == 'a' || text[19] == 'b'
}

/// The names that were drawn for agents.
pub struct DrawLog {
    names: Ghost<Seq<Seq<char>>>,
}

impl View for DrawLog {
    type V = Seq<Seq<char>>;

    /// The names, oldest first.
    closed spec fn view(&self) -> Seq<Seq<char>> {
        self.names@
    }
}

impl DrawLog {
    /// No name was drawn yet.
    pub(crate) fn new() -> (log: DrawLog)
        ensures
            log@ == Seq::<Seq<char>>::empty(),
    {
        DrawLog { names: Ghost(Seq::empty()) }
    }
}

/// A name for a new agent: a random UUID, with `uuid::Uuid::new_v4` and its
/// text. The draw is in the log, behind those made before. The digits are drawn
/// by the machine, and beyond the form nothing is claimed of them; in particular
/// not that a name never comes twice. The outside function panics if the machine
/// has no random numbers to give.
#[allow(unused_variables)]
#[verifier::external_body]
pub(crate) fn random_agent_id(log: &mut DrawLog) -> (id: String)
    ensures
        is_random_uuid(id@),
        final(log)@ == old(log)@.push(id@),
{
    uuid::Uuid::new_v4().to_string()
}

} // verus!
