//! The popups a plugin has opened, each under its own id.
use dashmap::DashMap;
use vstd::prelude::*;

verus! {

/// A concurrent hash map (`dashmap::DashMap`).
#[verifier::external_type_specification]
#[verifier::external_body]
#[verifier::reject_recursive_types(K)]
#[verifier::reject_recursive_types(V)]
#[verifier::reject_recursive_types(S)]
pub struct ExDashMap<K, V, S>(dashmap::DashMap<K, V, S>);

/// A map from popup ids to the popups' texts.
pub type PopupMap = DashMap<u128, String>;

/// What a popup map holds: each popup id with the popup's text.
pub uninterp spec fn popup_entries(m: PopupMap) -> Map<u128, Seq<char>>;

/// `DashMap::new`: a map without entries.
#[verifier::external_body]
fn new_popup_map() -> (r: PopupMap)
    ensures
        popup_entries(r).is_empty(),
{
    DashMap::new()
}

/// `DashMap::insert`: stores `value` under `key`, replacing and returning
/// what was stored there.
#[verifier::external_body]
fn popup_map_insert(m: &mut PopupMap, key: u128, value: String) -> (r: Option<String>)
    ensures
        popup_entries(*final(m)) == popup_entries(*old(m)).insert(key, value@),
        match r {
            Some(v) => popup_entries(*old(m)).contains_key(key) && v@ == popup_entries(
                *old(m),
            )[key],
            None => !popup_entries(*old(m)).contains_key(key),
        },
{
    m.insert(key, value)
}

/// `DashMap::get`, with the stored text cloned out of the entry.
#[verifier::external_body]
fn popup_map_get(m: &PopupMap, key: u128) -> (r: Option<String>)
    ensures
        match r {
            Some(v) => popup_entries(*m).contains_key(key) && v@ == popup_entries(*m)[key],
            None => !popup_entries(*m).contains_key(key),
        },
{
    match m.get(&key) {
        Some(entry) => Some(entry.value().clone()),
        None => None,
    }
}

/// An opened popup is found under its id with its text; the other popups
/// stay as they were.
pub proof fn lemma_popup_reads_back(
    board: Map<u128, Seq<char>>,
    popup_id: u128,
    content: Seq<char>,
    other: u128,
)
    ensures
        board.insert(popup_id, content).contains_key(popup_id),
        board.insert(popup_id, content)[popup_id] == content,
        other != popup_id ==> (board.insert(popup_id, content).contains_key(other)
            == board.contains_key(other) && board.insert(popup_id, content)[other] == board[other]),
{
}

/// The popups a plugin has opened.
pub struct PopupBoard {
    popups: PopupMap,
}

impl View for PopupBoard {
    type V = Map<u128, Seq<char>>;

    closed spec fn view(&self) -> Map<u128, Seq<char>> {
        popup_entries(self.popups)
    }
}

impl PopupBoard {
    /// A board without popups.
    pub fn new() -> (b: PopupBoard)
        ensures
            b@ == Map::<u128, Seq<char>>::empty(),
    {
        PopupBoard { popups: new_popup_map() }
    }

    /// Opens a popup showing `content` under `popup_id`; a popup open under
    /// that id before is replaced.
    pub fn open_popup_as(&mut self, popup_id: u128, content: String)
        ensures
            final(self)@ == old(self)@.insert(popup_id, content@),
    {
        popup_map_insert(&mut self.popups, popup_id, content);
    }

    /// Opens a popup showing `content` under a new random id, and returns
    /// that id.
    pub fn open_popup(&mut self, content: String) -> (r: u128)
        ensures
            final(self)@ == old(self)@.insert(r, content@),
            r & crate::ids::v4_mask() == crate::ids::v4_bits(),
    {
        let popup_id = crate::ids::HandlerId::gen().0;
        self.open_popup_as(popup_id, content);
        popup_id
    }

    /// The text of the popup open under `popup_id`.
    pub fn popup(&self, popup_id: u128) -> (r: Option<String>)
        ensures
            match r {
                Some(v) => self@.contains_key(popup_id) && v@ == self@[popup_id],
                None => !self@.contains_key(popup_id),
            },
    {
        popup_map_get(&self.popups, popup_id)
    }
}

} // verus!
