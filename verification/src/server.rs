//! Server-side test association: the outstanding-test registry.
//!
//! A `NewTestMessage` announced over a control connection waits in the
//! registry.  When a later connection presents a `TestAssociationMessage`,
//! the registry is scanned for the entry with the byte-identical code: the
//! first match is removed (order among the rest is irrelevant) and handed
//! to the data-plane engine; no match means the connection is shut down.

use vstd::prelude::*;

use crate::messages::NewTestMessage;
use crate::messages::TestAssociationMessage;

verus! {

/// Command to the server's accept loop.
#[derive(Debug, Clone, Copy, PartialEq, Eq, Structural)]
pub enum ControlMessage {
    Stop,
}

/// The index of the first entry whose code equals `code`, scanning from
/// `i`; -1 if there is none.
pub open spec fn first_match_from(s: Seq<NewTestMessage>, code: Seq<u8>, i: int) -> int
    decreases s.len() - i,
{
    if i < 0 || i >= s.len() {
        -1
    } else if s[i].code@ == code {
        i
    } else {
        first_match_from(s, code, i + 1)
    }
}

/// The sequence after `swap_remove(i)`: the last entry moves into slot `i`.
pub open spec fn swap_removed(s: Seq<NewTestMessage>, i: int) -> Seq<NewTestMessage> {
    s.update(i, s.last()).drop_last()
}

/// The registry of announced tests still waiting for their data
/// connection.
#[derive(Debug)]
pub struct Registry {
    pub tests: Vec<NewTestMessage>,
}

impl Registry {
    pub fn new() -> (r: Registry)
        ensures
            r.tests@ == Seq::<NewTestMessage>::empty(),
    {
        Registry { tests: Vec::new() }
    }

    pub fn len(&self) -> (n: usize)
        ensures
            n == self.tests@.len(),
    {
        self.tests.len()
    }

    /// Record a freshly announced test.
    pub fn add(&mut self, message: NewTestMessage)
        ensures
            final(self).tests@ == old(self).tests@.push(message),
    {
        self.tests.push(message);
    }

    /// First-match-wins association: remove and return the first entry
    /// whose code equals the association's code exactly; `None` and no
    /// change when no entry matches.
    pub fn take_matching(&mut self, association: &TestAssociationMessage) -> (r: Option<
        NewTestMessage,
    >)
        ensures
            ({
                let s = old(self).tests@;
                let idx = first_match_from(s, association.code@, 0);
                if idx == -1 {
                    r is None && final(self).tests@ == s
                } else {
                    &&& 0 <= idx < s.len()
                    &&& s[idx].code@ == association.code@
                    &&& r == Some(s[idx])
                    &&& final(self).tests@ == swap_removed(s, idx)
                }
            }),
    {
        match find_code_index(&self.tests, &association.code) {
            Some(i) => {
                let taken = self.tests.swap_remove(i);
                Some(taken)
            },
            None => None,
        }
    }
}

/// The position of the first entry whose code equals `code` exactly.
fn find_code_index(tests: &Vec<NewTestMessage>, code: &[u8; 32]) -> (r: Option<usize>)
    ensures
        match r {
            Some(i) => i < tests@.len() && first_match_from(tests@, code@, 0) == i
                && tests@[i as int].code@ == code@,
            None => first_match_from(tests@, code@, 0) == -1,
        },
{
    let mut i: usize = 0;
    while i < tests.len()
        invariant
            i <= tests@.len(),
            forall|j: int| 0 <= j < i ==> tests@[j].code@ != code@,
            first_match_from(tests@, code@, 0) == first_match_from(tests@, code@, i as int),
        decreases tests@.len() - i,
    {
        let entry_code: [u8; 32] = tests[i].code;
        let matches_here = crate::messages::codes_equal(&entry_code, code);
        if matches_here {
            proof {
                assert(first_match_from(tests@, code@, i as int) == i as int);
            }
            return Some(i);
        }
        i = i + 1;
    }
    None
}

/// Association law: when all outstanding codes are pairwise distinct and
/// entry `i` carries the association's code, the scan finds exactly entry
/// `i`; what remains has one entry fewer, holds every other prior entry
/// and nothing with the matched code.
pub proof fn lemma_association_unique(s: Seq<NewTestMessage>, code: Seq<u8>, i: int)
    requires
        forall|j: int, k: int|
            0 <= j < k < s.len() ==> s[j].code@ != s[k].code@,
        0 <= i < s.len(),
        s[i].code@ == code,
    ensures
        first_match_from(s, code, 0) == i,
        swap_removed(s, i).len() == s.len() - 1,
        forall|k: int|
            0 <= k < s.len() - 1 ==> #[trigger] swap_removed(s, i)[k] == (if k == i {
                s[s.len() - 1]
            } else {
                s[k]
            }),
        forall|j: int| 0 <= j < s.len() && j != i ==> swap_removed(s, i).contains(s[j]),
        forall|k: int| 0 <= k < s.len() - 1 ==> #[trigger] swap_removed(s, i)[k].code@ != code,
{
    lemma_first_match_prefix(s, code, i);
    assert forall|j: int| 0 <= j < s.len() && j != i implies swap_removed(s, i).contains(
        s[j],
    ) by {
        if j < s.len() - 1 {
            assert(swap_removed(s, i)[j] == s[j]);
        } else {
            // the last entry survives in slot i, which was vacated
            assert(i < s.len() - 1);
            assert(swap_removed(s, i)[i] == s[j]);
        }
    }
    assert forall|k: int| 0 <= k < s.len() - 1 implies #[trigger] swap_removed(s, i)[k].code@
        != code by {
        if k == i {
            // slot i now holds the last entry, whose code differs from s[i]'s
            assert(s[i].code@ != s[s.len() - 1].code@);
        }
    }
}

/// The scan from 0 stops at `i` when no earlier entry matches.
proof fn lemma_first_match_prefix(s: Seq<NewTestMessage>, code: Seq<u8>, i: int)
    requires
        0 <= i < s.len(),
        s[i].code@ == code,
        forall|j: int| 0 <= j < i ==> s[j].code@ != code,
    ensures
        first_match_from(s, code, 0) == i,
    decreases i,
{
    if i > 0 {
        lemma_first_match_shift(s, code, 0, i);
    }
}

/// Scanning from `lo` equals scanning from `hi` when nothing in between
/// matches.
proof fn lemma_first_match_shift(s: Seq<NewTestMessage>, code: Seq<u8>, lo: int, hi: int)
    requires
        0 <= lo <= hi <= s.len(),
        forall|j: int| lo <= j < hi ==> s[j].code@ != code,
    ensures
        first_match_from(s, code, lo) == first_match_from(s, code, hi),
    decreases hi - lo,
{
    if lo < hi {
        lemma_first_match_shift(s, code, lo + 1, hi);
    }
}

} // verus!
// === per-connection control handling ===

use crate::codec::decode_association_spec;
use crate::codec::decode_new_test;
use crate::codec::decode_new_test_spec;
use crate::codec::model_of;
use crate::messages::MessageType;

verus! {

/// What the server does with a control message once its body has been
/// read: queue an announced test, start a matched test over this
/// connection, shut an unmatched or malformed connection down, or nothing
/// for the reserved message types.
#[derive(Debug, Clone, Copy, PartialEq, Eq)]
pub enum ServerAction {
    TestRegistered,
    StartTest(NewTestMessage),
    ShutdownConnection,
    Malformed,
    Unsupported,
}

/// The server's decision for one decoded header and body: a `NewTest`
/// body joins the registry; a `TestAssociation` body removes its
/// first-match entry and starts that test, or shuts the connection down
/// when no code matches; malformed bodies are fatal to the connection;
/// the reserved types have no behaviour.
pub fn handle_control_message(
    registry: &mut Registry,
    msg_type: MessageType,
    body: &[u8],
) -> (a: ServerAction)
    ensures
        match msg_type {
            MessageType::NewTest(_) => match decode_new_test_spec(body@) {
                Some(model) => {
                    &&& a is TestRegistered
                    &&& final(registry).tests@.len() == old(registry).tests@.len() + 1
                    &&& final(registry).tests@.subrange(0, old(registry).tests@.len() as int)
                        == old(registry).tests@
                    &&& model_of(final(registry).tests@.last()) == model
                },
                None => a is Malformed && *final(registry) == *old(registry),
            },
            MessageType::TestAssociation(_) => match decode_association_spec(body@) {
                Some(code) => {
                    let s = old(registry).tests@;
                    let idx = first_match_from(s, code, 0);
                    if idx == -1 {
                        a is ShutdownConnection && final(registry).tests@ == old(
                            registry,
                        ).tests@
                    } else {
                        &&& a == ServerAction::StartTest(s[idx])
                        &&& final(registry).tests@ == swap_removed(s, idx)
                    }
                },
                None => a is Malformed && *final(registry) == *old(registry),
            },
            _ => a is Unsupported && *final(registry) == *old(registry),
        },
{
    match msg_type {
        MessageType::NewTest(_) => match decode_new_test(body) {
            Some(message) => {
                registry.add(message);
                proof {
                    assert(registry.tests@.subrange(
                        0,
                        old(registry).tests@.len() as int,
                    ) =~= old(registry).tests@);
                }
                ServerAction::TestRegistered
            },
            None => ServerAction::Malformed,
        },
        MessageType::TestAssociation(_) => match crate::codec::decode_association(body) {
            Some(association) => match registry.take_matching(&association) {
                Some(message) => ServerAction::StartTest(message),
                None => ServerAction::ShutdownConnection,
            },
            None => ServerAction::Malformed,
        },
        _ => ServerAction::Unsupported,
    }
}

} // verus!
