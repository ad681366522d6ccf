//! Sender profiles: the room's member directory and how a sender is resolved.
use vstd::prelude::*;

use crate::text_order::str_eq;

verus! {

/// The display name and avatar of a room member.
#[derive(Clone, Debug, Default, PartialEq, Eq)]
pub struct Profile {
    pub display_name: Option<String>,
    /// True if another member of the room has the same display name.
    pub display_name_ambiguous: bool,
    /// Content URI of the avatar.
    pub avatar_url: Option<String>,
}

fn copy_text(s: &Option<String>) -> (r: Option<String>)
    ensures
        r == *s,
{
    match s {
        Some(t) => Some(t.clone()),
        None => None,
    }
}

impl Profile {
    /// A copy of this profile.
    pub fn duplicate(&self) -> (r: Profile)
        ensures
            r == *self,
    {
        Profile {
            display_name: copy_text(&self.display_name),
            display_name_ambiguous: self.display_name_ambiguous,
            avatar_url: copy_text(&self.avatar_url),
        }
    }
}

/// One entry of a room's member directory.
#[derive(Clone, Debug, PartialEq, Eq)]
pub struct RoomMember {
    pub user_id: String,
    pub profile: Profile,
}

/// What is known of the room a batch belongs to.
#[derive(Clone, Debug, PartialEq, Eq)]
pub struct RoomContext {
    /// Whether the room is encrypted, as far as is known.
    pub is_encrypted: bool,
    /// The member profiles that were looked up for this batch.
    pub members: Vec<RoomMember>,
}

/// Index of the first member with the identifier `user_id`, or the length
/// when there is none.
pub open spec fn member_slot(members: Seq<RoomMember>, user_id: Seq<char>) -> int
    decreases members.len(),
{
    if members.len() == 0 {
        0
    } else if members[0].user_id@ == user_id {
        0
    } else {
        1 + member_slot(members.drop_first(), user_id)
    }
}

/// The profile that a sender resolves to: none without a room, else the first
/// directory entry of the sender, if any.
pub open spec fn profile_in(room: Option<&RoomContext>, sender: Seq<char>) -> Option<Profile> {
    match room {
        None => None,
        Some(c) => {
            let i = member_slot(c.members@, sender);
            if i < c.members@.len() {
                Some(c.members@[i].profile)
            } else {
                None
            }
        },
    }
}

proof fn lemma_member_slot_bounds(members: Seq<RoomMember>, user_id: Seq<char>)
    ensures
        0 <= member_slot(members, user_id) <= members.len(),
    decreases members.len(),
{
    if members.len() > 0 && members[0].user_id@ != user_id {
        lemma_member_slot_bounds(members.drop_first(), user_id);
    }
}

/// Resolves a sender to a profile through the room's member directory. A
/// sender who is not found is shown by identifier alone.
pub fn resolve_profile(sender: &str, room: Option<&RoomContext>) -> (r: Option<Profile>)
    ensures
        r == profile_in(room, sender@),
{
    match room {
        None => None,
        Some(c) => {
            let ghost m = c.members@;
            proof {
                lemma_member_slot_bounds(m, sender@);
            }
            let mut i: usize = 0;
            assert(m.skip(0) =~= m);
            while i < c.members.len()
                invariant
                    room == Some(c),
                    m == c.members@,
                    i <= m.len(),
                    member_slot(m, sender@) == i + member_slot(m.skip(i as int), sender@),
                decreases m.len() - i,
            {
                let member = &c.members[i];
                assert(m.skip(i as int)[0] == m[i as int]);
                if str_eq(member.user_id.as_str(), sender) {
                    assert(member_slot(m.skip(i as int), sender@) == 0);
                    return Some(member.profile.duplicate());
                }
                assert(m.skip(i as int).drop_first() =~= m.skip(i as int + 1));
                i = i + 1;
            }
            assert(m.skip(i as int) =~= Seq::<RoomMember>::empty());
            None
        },
    }
}

/// The outcome of one lookup of a member in the room's directory.
#[derive(Clone, Debug, PartialEq, Eq)]
pub enum MemberLookup {
    Found(Profile),
    NotFound,
    /// The lookup itself failed.
    Failed,
}

/// What to do next to resolve a sender's profile.
#[derive(Clone, Debug, PartialEq, Eq)]
pub enum ProfileStep {
    /// Look the sender up in the locally cached member list.
    LookUpCached,
    /// Ask the member directory itself, the slower path.
    LookUpDirectory,
    /// Resolution is over, with this profile.
    Finish(Option<Profile>),
}

/// The next step of resolving a sender's profile, given whether the room is
/// known and the lookups made so far. The cache is asked first and the
/// directory only on a miss; a failed lookup ends with no profile, it never
/// fails the event.
pub open spec fn profile_step_spec(
    room_known: bool,
    cached: Option<MemberLookup>,
    directory: Option<MemberLookup>,
) -> ProfileStep {
    if !room_known {
        ProfileStep::Finish(None)
    } else {
        match cached {
            None => ProfileStep::LookUpCached,
            Some(MemberLookup::Found(p)) => ProfileStep::Finish(Some(p)),
            Some(MemberLookup::Failed) => ProfileStep::Finish(None),
            Some(MemberLookup::NotFound) => match directory {
                None => ProfileStep::LookUpDirectory,
                Some(MemberLookup::Found(p)) => ProfileStep::Finish(Some(p)),
                Some(_) => ProfileStep::Finish(None),
            },
        }
    }
}

/// Decides the next step of resolving a sender's profile.
pub fn next_profile_step(
    room_known: bool,
    cached: &Option<MemberLookup>,
    directory: &Option<MemberLookup>,
) -> (r: ProfileStep)
    ensures
        r == profile_step_spec(room_known, *cached, *directory),
{
    if !room_known {
        return ProfileStep::Finish(None);
    }
    match cached {
        None => ProfileStep::LookUpCached,
        Some(MemberLookup::Found(p)) => ProfileStep::Finish(Some(p.duplicate())),
        Some(MemberLookup::Failed) => ProfileStep::Finish(None),
        Some(MemberLookup::NotFound) => match directory {
            None => ProfileStep::LookUpDirectory,
            Some(MemberLookup::Found(p)) => ProfileStep::Finish(Some(p.duplicate())),
            Some(_) => ProfileStep::Finish(None),
        },
    }
}

} // verus!
