//! Access control for shared entities (lists, smart lists): who may see an
//! entity given its visibility, its creator and the access rows granting
//! users a role on it.
use vstd::prelude::*;

verus! {

/// The visibility of a shared entity.
#[derive(Clone, Copy, Debug, PartialEq, Eq, Structural)]
pub enum EntityVisibility {
    Public,
    Shared,
    Private,
}

/// The role an access row grants a user on an entity, ordered by what it
/// allows.
#[derive(Clone, Copy, Debug, PartialEq, Eq, Structural)]
pub enum SharedAccessRole {
    Reader,
    Writer,
    CoCreator,
}

impl SharedAccessRole {
    /// The stored level of the role.
    pub open spec fn level_spec(self) -> i32 {
        match self {
            SharedAccessRole::Reader => 1,
            SharedAccessRole::Writer => 2,
            SharedAccessRole::CoCreator => 3,
        }
    }

    /// The stored level of the role.
    pub fn level(self) -> (r: i32)
        ensures
            r == self.level_spec(),
    {
        match self {
            SharedAccessRole::Reader => 1,
            SharedAccessRole::Writer => 2,
            SharedAccessRole::CoCreator => 3,
        }
    }
}

/// The condition restricting which entities a user can access.
pub enum AccessCondition {
    /// The user may read the entity: they created it; or it is public and they
    /// hold at least `min_role` on it or have no access row for it; or it is
    /// shared and they hold at least `min_role`; or it is private and theirs.
    Readable { user_id: String, min_role: SharedAccessRole },
    /// The user created the entity.
    CreatedBy(String),
}

/// A case-sensitive search over the entity's name and description.
pub struct SearchCondition {
    pub term: String,
}

/// What the access condition reads of an entity and of its access rows for
/// the user in question.
pub ghost struct EntityFacts {
    pub creator_id: Seq<char>,
    pub visibility: EntityVisibility,
    /// The user has an access row for the entity
    pub has_access_row: bool,
    /// The level of the role of the user's access row, when there is one
    pub role_level: i32,
}

impl AccessCondition {
    /// Whether an entity satisfies the condition.
    pub open spec fn admits(&self, e: EntityFacts) -> bool {
        match self {
            AccessCondition::Readable { user_id, min_role } => {
                let has_role = e.has_access_row && e.role_level >= min_role.level_spec();
                let creator = e.creator_id == user_id@;
                ||| creator
                ||| e.visibility == EntityVisibility::Public && (has_role || !e.has_access_row)
                ||| e.visibility == EntityVisibility::Shared && has_role
                ||| e.visibility == EntityVisibility::Private && creator
            },
            AccessCondition::CreatedBy(user_id) => e.creator_id == user_id@,
        }
    }

    /// The view of the condition.
    pub open spec fn view_spec(&self) -> (bool, Seq<char>, SharedAccessRole) {
        match self {
            AccessCondition::Readable { user_id, min_role } => (true, user_id@, *min_role),
            AccessCondition::CreatedBy(user_id) => (false, user_id@, SharedAccessRole::Reader),
        }
    }
}

/// The access condition for a user: everything readable by default, only
/// their own entities with `query_mine`, and no restriction with `query_all`
/// (unless `query_mine` is also set).
pub open spec fn access_condition_spec(user_id: Seq<char>, query_all: bool, query_mine: bool) -> Option<
    (bool, Seq<char>, SharedAccessRole),
> {
    if !query_all && !query_mine {
        Some((true, user_id, SharedAccessRole::Reader))
    } else if query_mine {
        Some((false, user_id, SharedAccessRole::Reader))
    } else {
        None
    }
}

pub fn get_access_condition_for_user(user_id: &String, query_all: bool, query_mine: bool) -> (r: Option<
    AccessCondition,
>)
    ensures
        match access_condition_spec(user_id@, query_all, query_mine) {
            Some(v) => r matches Some(c) && c.view_spec() == v,
            None => r is None,
        },
{
    if !query_all && !query_mine {
        Some(AccessCondition::Readable { user_id: user_id.clone(), min_role: SharedAccessRole::Reader })
    } else if query_mine {
        Some(AccessCondition::CreatedBy(user_id.clone()))
    } else {
        None
    }
}

/// The search condition for an optional search term: none for a missing or
/// empty term, otherwise the name or the description contains the term.
pub fn get_search_condition(search: Option<String>) -> (r: Option<SearchCondition>)
    ensures
        match search {
            Some(s) => if s@.len() == 0 {
                r is None
            } else {
                r matches Some(c) && c.term@ == s@
            },
            None => r is None,
        },
{
    match search {
        Some(s) => {
            if s.as_str().is_empty() {
                None
            } else {
                Some(SearchCondition { term: s })
            }
        },
        None => None,
    }
}

/// The creator of an entity can always read it.
pub proof fn law_creator_always_has_access(user_id: String, e: EntityFacts)
    requires
        e.creator_id == user_id@,
    ensures
        (AccessCondition::Readable { user_id, min_role: SharedAccessRole::Reader }).admits(e),
{
}

/// A private entity is readable by its creator only, whatever access rows
/// exist.
pub proof fn law_private_only_for_creator(user_id: String, e: EntityFacts)
    requires
        e.visibility == EntityVisibility::Private,
    ensures
        (AccessCondition::Readable { user_id, min_role: SharedAccessRole::Reader }).admits(e)
            == (e.creator_id == user_id@),
{
}

/// A shared entity is readable by a user other than its creator exactly when
/// they hold a role on it; a public one unless they hold an access row without
/// at least the reader role.
pub proof fn law_shared_and_public_access(user_id: String, e: EntityFacts)
    requires
        e.creator_id != user_id@,
    ensures
        e.visibility == EntityVisibility::Shared ==> ((AccessCondition::Readable {
            user_id,
            min_role: SharedAccessRole::Reader,
        }).admits(e) == (e.has_access_row && e.role_level >= 1)),
        e.visibility == EntityVisibility::Public ==> ((AccessCondition::Readable {
            user_id,
            min_role: SharedAccessRole::Reader,
        }).admits(e) == (!e.has_access_row || e.role_level >= 1)),
{
}

} // verus!
