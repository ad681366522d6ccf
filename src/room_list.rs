//! The list of joined rooms shown on the index page.
use vstd::multiset::Multiset;
use vstd::prelude::*;

use crate::text_order::{
    chars_less, lemma_chars_less_asymmetric, lemma_chars_less_total, lemma_chars_less_transitive,
    str_eq, str_less,
};

verus! {

broadcast use vstd::seq_lib::group_to_multiset_ensures;

/// How the user stands in a room.
#[derive(Clone, Copy, Debug, PartialEq, Eq, Structural)]
pub enum RoomState {
    Joined,
    Left,
    Invited,
    Knocked,
    Banned,
}

/// A room in the room list, with what the list shows of it.
#[derive(Clone, Debug, PartialEq, Eq)]
pub struct RoomListEntry {
    /// The room identifier.
    pub id: String,
    /// The human-readable name of the room.
    pub name: String,
    /// The room's avatar URL if available.
    pub avatar_url: Option<String>,
    pub is_encrypted: bool,
    /// Whether the room is a direct message room.
    pub is_direct: bool,
    /// Number of unread notifications.
    pub unread_count: u64,
    pub state: RoomState,
}

impl RoomListEntry {
    /// The first letter of the room name, for an avatar placeholder; a
    /// question mark for a room without a name.
    pub fn name_initial(&self) -> (r: String)
        ensures
            r@ == if self.name@.len() > 0 {
                self.name@.subrange(0, 1)
            } else {
                seq!['?']
            },
    {
        let name = self.name.as_str();
        if name.unicode_len() > 0 {
            name.substring_char(0, 1).to_owned()
        } else {
            proof {
                reveal_strlit("?");
            }
            let r = "?".to_owned();
            assert(r@ =~= seq!['?']);
            r
        }
    }

    /// Whether the room has unread notifications.
    pub fn has_unread(&self) -> (r: bool)
        ensures
            r == (self.unread_count > 0),
    {
        self.unread_count > 0
    }
}

/// What `str::to_lowercase` makes of `s`.
pub uninterp spec fn lowercase_of(s: Seq<char>) -> Seq<char>;

/// Relies on `str::to_lowercase`: the result depends on the characters alone.
#[verifier::external_body]
fn to_lowercase(s: &str) -> (r: String)
    ensures
        r@ == lowercase_of(s@),
{
    s.to_lowercase()
}

/// The key that the list is sorted by: the name, case folded.
pub open spec fn sort_key(e: RoomListEntry) -> Seq<char> {
    lowercase_of(e.name@)
}

/// Sorted alphabetically by name, ignoring case.
pub open spec fn sorted_by_name(rooms: Seq<RoomListEntry>) -> bool {
    forall|i: int, j: int| 0 <= i < j < rooms.len() ==> !chars_less(#[trigger] sort_key(rooms[j]), #[trigger] sort_key(rooms[i]))
}

/// Index of the first room with identifier `id`, or the length when there is none.
pub open spec fn room_slot(rooms: Seq<RoomListEntry>, id: Seq<char>) -> int
    decreases rooms.len(),
{
    if rooms.len() == 0 {
        0
    } else if rooms[0].id@ == id {
        0
    } else {
        1 + room_slot(rooms.drop_first(), id)
    }
}

proof fn lemma_room_slot_bounds(rooms: Seq<RoomListEntry>, id: Seq<char>)
    ensures
        0 <= room_slot(rooms, id) <= rooms.len(),
    decreases rooms.len(),
{
    if rooms.len() > 0 && rooms[0].id@ != id {
        lemma_room_slot_bounds(rooms.drop_first(), id);
    }
}

/// The rooms of the index page.
#[derive(Clone, Debug, PartialEq, Eq)]
pub struct RoomList {
    pub rooms: Vec<RoomListEntry>,
}

impl RoomList {
    /// An empty list.
    pub fn new() -> (r: Self)
        ensures
            r.rooms@.len() == 0,
    {
        RoomList { rooms: Vec::new() }
    }

    /// Appends a room.
    pub fn add_room(&mut self, room: RoomListEntry)
        ensures
            final(self).rooms@ == old(self).rooms@.push(room),
    {
        self.rooms.push(room);
    }

    /// The first room with the identifier `room_id`.
    pub fn get_room(&self, room_id: &str) -> (r: Option<&RoomListEntry>)
        ensures
            match r {
                Some(e) => room_slot(self.rooms@, room_id@) < self.rooms@.len() && *e == self.rooms@[room_slot(
                    self.rooms@,
                    room_id@,
                )],
                None => room_slot(self.rooms@, room_id@) == self.rooms@.len(),
            },
    {
        let ghost v = self.rooms@;
        proof {
            lemma_room_slot_bounds(v, room_id@);
        }
        let mut i: usize = 0;
        assert(v.skip(0) =~= v);
        while i < self.rooms.len()
            invariant
                v == self.rooms@,
                i <= v.len(),
                room_slot(v, room_id@) == i + room_slot(v.skip(i as int), room_id@),
            decreases v.len() - i,
        {
            let room = &self.rooms[i];
            assert(v.skip(i as int)[0] == v[i as int]);
            if str_eq(room.id.as_str(), room_id) {
                assert(room_slot(v.skip(i as int), room_id@) == 0);
                return Some(room);
            }
            assert(v.skip(i as int).drop_first() =~= v.skip(i as int + 1));
            i = i + 1;
        }
        assert(v.skip(i as int) =~= Seq::<RoomListEntry>::empty());
        None
    }

    /// Sorts the rooms alphabetically by name, ignoring case. Rooms whose
    /// names compare equal keep their order.
    pub fn sort_by_display_names(&mut self)
        ensures
            sorted_by_name(final(self).rooms@),
            final(self).rooms@.to_multiset() == old(self).rooms@.to_multiset(),
    {
        let ghost orig = self.rooms@;
        let mut rest: Vec<RoomListEntry> = Vec::new();
        std::mem::swap(&mut rest, &mut self.rooms);
        let mut sorted: Vec<RoomListEntry> = Vec::new();
        let mut keys: Vec<String> = Vec::new();
        assert(sorted@.to_multiset() =~= Multiset::<RoomListEntry>::empty()) by {
            assert(sorted@ =~= Seq::<RoomListEntry>::empty());
        }
        assert(sorted@.to_multiset().add(rest@.to_multiset()) =~= orig.to_multiset());
        while rest.len() > 0
            invariant
                sorted@.len() == keys@.len(),
                forall|k: int| 0 <= k < keys@.len() ==> #[trigger] keys@[k]@ == sort_key(sorted@[k]),
                sorted_by_name(sorted@),
                sorted@.to_multiset().add(rest@.to_multiset()) == orig.to_multiset(),
            decreases rest@.len(),
        {
            let ghost rest_before = rest@;
            let ghost sorted_before = sorted@;
            let ghost keys_before = keys@;
            let room = rest.remove(0);
            let key = to_lowercase(room.name.as_str());
            let mut pos: usize = 0;
            while pos < sorted.len() && !str_less(key.as_str(), keys[pos].as_str())
                invariant
                    sorted@ == sorted_before,
                    keys@ == keys_before,
                    sorted@.len() == keys@.len(),
                    pos <= sorted@.len(),
                    forall|k: int| 0 <= k < keys@.len() ==> #[trigger] keys@[k]@ == sort_key(sorted@[k]),
                    forall|k: int| 0 <= k < pos ==> !chars_less(key@, #[trigger] sort_key(sorted@[k])),
                decreases sorted@.len() - pos,
            {
                pos = pos + 1;
            }
            assert(pos < sorted@.len() ==> chars_less(key@, sort_key(sorted@[pos as int])));
            sorted.insert(pos, room);
            keys.insert(pos, key);
            proof {
                let s = sorted@;
                assert forall|k: int| 0 <= k < keys@.len() implies #[trigger] keys@[k]@ == sort_key(s[k]) by {
                    if k < pos {
                        assert(keys@[k] == keys_before[k]);
                    } else if k > pos {
                        assert(keys@[k] == keys_before[k - 1]);
                    }
                }
                assert forall|i: int, j: int| 0 <= i < j < s.len() implies !chars_less(
                    #[trigger] sort_key(s[j]),
                    #[trigger] sort_key(s[i]),
                ) by {
                    if j < pos {
                        assert(s[i] == sorted_before[i] && s[j] == sorted_before[j]);
                    } else if j == pos {
                        assert(s[i] == sorted_before[i]);
                    } else if i == pos {
                        let a = sorted_before[pos as int];
                        let b = sorted_before[j - 1];
                        assert(chars_less(key@, sort_key(a)));
                        if j - 1 > pos {
                            assert(!chars_less(sort_key(b), sort_key(a)));
                            lemma_chars_less_total(sort_key(a), sort_key(b));
                            if sort_key(a) != sort_key(b) {
                                lemma_chars_less_transitive(key@, sort_key(a), sort_key(b));
                            }
                        }
                        lemma_chars_less_asymmetric(key@, sort_key(b));
                    } else if i < pos {
                        assert(s[i] == sorted_before[i] && s[j] == sorted_before[j - 1]);
                    } else {
                        assert(s[i] == sorted_before[i - 1] && s[j] == sorted_before[j - 1]);
                    }
                }
                assert(rest_before =~= rest_before.remove(0).insert(0, room));
                assert(rest@ == rest_before.remove(0));
                assert(sorted@.to_multiset() == sorted_before.to_multiset().insert(room));
                assert(rest_before.to_multiset() == rest@.to_multiset().insert(room)) by {
                    assert(rest_before.to_multiset() == rest_before.remove(0).to_multiset().insert(room))
                        by {
                        vstd::seq_lib::to_multiset_insert(rest_before.remove(0), 0, room);
                    }
                }
                assert(sorted@.to_multiset().add(rest@.to_multiset()) =~= sorted_before.to_multiset().add(
                    rest_before.to_multiset(),
                ));
            }
        }
        assert(rest@.to_multiset() =~= Multiset::<RoomListEntry>::empty()) by {
            assert(rest@ =~= Seq::<RoomListEntry>::empty());
        }
        self.rooms = sorted;
    }
}

} // verus!
