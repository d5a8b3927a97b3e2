//! User lists: the stored row, the inputs that create and patch one, and the
//! column values a save writes.
use crate::shared_access::EntityVisibility;
use vstd::prelude::*;
use vstd::string::*;

verus! {

/// The value a column of a pending save holds.
#[derive(Debug, Clone, PartialEq, Eq)]
pub enum ActiveValue<T> {
    /// Written with this value.
    SetTo(T),
    /// Kept at this (current) value.
    Unchanged(T),
    /// Not part of the save; the database default applies.
    NotSet,
}

/// A stored list. Instants are Unix milliseconds.
#[derive(Debug, Clone)]
pub struct ListModel {
    pub id: String,
    pub name: String,
    pub description: Option<String>,
    pub visibility: EntityVisibility,
    pub created_at: i64,
    pub updated_at: Option<i64>,
    pub creator_id: String,
}

/// The columns a save of a list writes.
#[derive(Debug)]
pub struct ListActiveModel {
    pub id: ActiveValue<String>,
    pub name: ActiveValue<String>,
    pub description: ActiveValue<Option<String>>,
    pub visibility: ActiveValue<EntityVisibility>,
    pub created_at: ActiveValue<i64>,
    pub updated_at: ActiveValue<Option<i64>>,
    pub creator_id: ActiveValue<String>,
}

impl ListActiveModel {
    /// A save that writes nothing.
    pub fn not_set() -> (r: ListActiveModel)
        ensures
            r.id is NotSet,
            r.name is NotSet,
            r.description is NotSet,
            r.visibility is NotSet,
            r.created_at is NotSet,
            r.updated_at is NotSet,
            r.creator_id is NotSet,
    {
        ListActiveModel {
            id: ActiveValue::NotSet,
            name: ActiveValue::NotSet,
            description: ActiveValue::NotSet,
            visibility: ActiveValue::NotSet,
            created_at: ActiveValue::NotSet,
            updated_at: ActiveValue::NotSet,
            creator_id: ActiveValue::NotSet,
        }
    }

    /// Stamp a save before it reaches the database: an insert gets `new_id`
    /// when it has no id yet and is created at `now`; an update is marked
    /// updated at `now`.
    pub fn before_save(self, insert: bool, new_id: String, now: i64) -> (r: ListActiveModel)
        ensures
            insert ==> r.created_at == ActiveValue::SetTo(now),
            insert ==> r.updated_at == self.updated_at,
            insert && self.id is NotSet ==> r.id == ActiveValue::SetTo(new_id),
            insert && !(self.id is NotSet) ==> r.id == self.id,
            !insert ==> r.updated_at == ActiveValue::SetTo(Some(now)),
            !insert ==> r.created_at == self.created_at && r.id == self.id,
            r.name == self.name,
            r.description == self.description,
            r.visibility == self.visibility,
            r.creator_id == self.creator_id,
    {
        let mut model = self;
        if insert {
            if model.id.is_not_set() {
                model.id = ActiveValue::SetTo(new_id);
            }
            model.created_at = ActiveValue::SetTo(now);
        } else {
            model.updated_at = ActiveValue::SetTo(Some(now));
        }
        model
    }
}

impl<T> ActiveValue<T> {
    /// Whether the column is left out of the save.
    pub fn is_not_set(&self) -> (r: bool)
        ensures
            r == (*self is NotSet),
    {
        match self {
            ActiveValue::NotSet => true,
            _ => false,
        }
    }
}

/// Input for creating a list.
#[derive(Debug)]
pub struct CreateListInput {
    /// The name of the list
    pub name: String,
    /// An optional description for the list
    pub description: Option<String>,
    /// The visibility of the list (e.g. public, private)
    pub visibility: EntityVisibility,
}

impl CreateListInput {
    /// The save creating the list for `creator_id`; the id and instants are
    /// left to `before_save`.
    pub fn into_active_model(self, creator_id: String) -> (r: ListActiveModel)
        ensures
            r.name == ActiveValue::SetTo(self.name),
            r.description == ActiveValue::SetTo(self.description),
            r.visibility == ActiveValue::SetTo(self.visibility),
            r.creator_id == ActiveValue::SetTo(creator_id),
            r.id is NotSet,
            r.created_at is NotSet,
            r.updated_at is NotSet,
    {
        let mut model = ListActiveModel::not_set();
        model.name = ActiveValue::SetTo(self.name);
        model.description = ActiveValue::SetTo(self.description);
        model.visibility = ActiveValue::SetTo(self.visibility);
        model.creator_id = ActiveValue::SetTo(creator_id);
        model
    }
}

/// A patch of a list: each present field replaces the stored one.
#[derive(Debug)]
pub struct PatchListInput {
    pub name: Option<String>,
    pub description: Option<Option<String>>,
    pub visibility: Option<EntityVisibility>,
}

/// The column value of a patch field: the new value when present, else the
/// stored one, unchanged.
pub open spec fn patched<T>(new: Option<T>, current: T) -> ActiveValue<T> {
    match new {
        Some(v) => ActiveValue::SetTo(v),
        None => ActiveValue::Unchanged(current),
    }
}

fn patch_value<T>(new: Option<T>, current: T) -> (r: ActiveValue<T>)
    ensures
        r == patched(new, current),
{
    match new {
        Some(v) => ActiveValue::SetTo(v),
        None => ActiveValue::Unchanged(current),
    }
}

impl PatchListInput {
    /// The save applying the patch to the stored list `model`.
    pub fn apply_to_model(self, model: ListModel) -> (r: ListActiveModel)
        ensures
            r.id == ActiveValue::Unchanged(model.id),
            r.name == patched(self.name, model.name),
            r.description == patched(self.description, model.description),
            r.visibility == patched(self.visibility, model.visibility),
            r.creator_id == ActiveValue::Unchanged(model.creator_id),
            r.created_at == ActiveValue::Unchanged(model.created_at),
            r.updated_at is NotSet,
    {
        let mut active = ListActiveModel::not_set();
        active.id = ActiveValue::Unchanged(model.id);
        active.name = patch_value(self.name, model.name);
        active.description = patch_value(self.description, model.description);
        active.visibility = patch_value(self.visibility, model.visibility);
        active.creator_id = ActiveValue::Unchanged(model.creator_id);
        active.created_at = ActiveValue::Unchanged(model.created_at);
        active
    }
}

/// A list as the API presents it.
#[derive(Debug)]
pub struct List {
    pub model: ListModel,
}

/// The media count of a list as the API reports it: counts beyond `i64` are
/// reported as zero.
pub open spec fn media_count_spec(count: u64) -> i64 {
    if count <= i64::MAX as u64 {
        count as i64
    } else {
        0
    }
}

impl List {
    pub fn from_model(model: ListModel) -> (r: List)
        ensures
            r.model == model,
    {
        List { model }
    }

    /// The number of media in the list, from the count the database returned.
    pub fn media_count(&self, count: u64) -> (r: i64)
        ensures
            r == media_count_spec(count),
    {
        if count <= 0x7fff_ffff_ffff_ffffu64 {
            count as i64
        } else {
            0
        }
    }

    /// The list's creator, from the lookup of `self.model.creator_id`.
    pub fn creator<U>(&self, found: Option<U>) -> (r: Result<U, String>)
        ensures
            match found {
                Some(u) => r == Ok::<U, String>(u),
                None => r is Err && r->Err_0@ == "Creator not found"@,
            },
    {
        match found {
            Some(u) => Ok(u),
            None => Err(String::from_str("Creator not found")),
        }
    }
}

/// How the filters of a smart list combine.
#[derive(Debug, Clone, Copy, PartialEq, Eq, Hash, Structural)]
pub enum SmartListJoiner {
    And,
    Or,
}

impl Default for SmartListJoiner {
    fn default() -> (r: Self)
        ensures
            r == SmartListJoiner::And,
    {
        SmartListJoiner::And
    }
}

/// How a smart list groups its books.
#[derive(Debug, Clone, Copy, PartialEq, Eq, Hash, Structural)]
pub enum SmartListGrouping {
    ByBooks,
    BySeries,
    ByLibrary,
}

impl Default for SmartListGrouping {
    fn default() -> (r: Self)
        ensures
            r == SmartListGrouping::ByBooks,
    {
        SmartListGrouping::ByBooks
    }
}

/// The stored name of a joiner (SCREAMING_SNAKE_CASE).
pub open spec fn joiner_name(j: SmartListJoiner) -> Seq<char> {
    match j {
        SmartListJoiner::And => "AND"@,
        SmartListJoiner::Or => "OR"@,
    }
}

/// The stored name of a grouping (SCREAMING_SNAKE_CASE).
pub open spec fn grouping_name(g: SmartListGrouping) -> Seq<char> {
    match g {
        SmartListGrouping::ByBooks => "BY_BOOKS"@,
        SmartListGrouping::BySeries => "BY_SERIES"@,
        SmartListGrouping::ByLibrary => "BY_LIBRARY"@,
    }
}

impl SmartListJoiner {
    /// The stored name of the joiner.
    pub fn as_str(&self) -> (r: &'static str)
        ensures
            r@ == joiner_name(*self),
    {
        match self {
            SmartListJoiner::And => "AND",
            SmartListJoiner::Or => "OR",
        }
    }

    /// The joiner a stored name denotes (exactly, case included).
    pub fn parse(s: &str) -> (r: Option<SmartListJoiner>)
        ensures
            match r {
                Some(j) => joiner_name(j) == s@,
                None => s@ != "AND"@ && s@ != "OR"@,
            },
    {
        let s = String::from_str(s);
        if s == String::from_str("AND") {
            Some(SmartListJoiner::And)
        } else if s == String::from_str("OR") {
            Some(SmartListJoiner::Or)
        } else {
            None
        }
    }
}

impl SmartListGrouping {
    /// The stored name of the grouping.
    pub fn as_str(&self) -> (r: &'static str)
        ensures
            r@ == grouping_name(*self),
    {
        match self {
            SmartListGrouping::ByBooks => "BY_BOOKS",
            SmartListGrouping::BySeries => "BY_SERIES",
            SmartListGrouping::ByLibrary => "BY_LIBRARY",
        }
    }

    /// The grouping a stored name denotes (exactly, case included).
    pub fn parse(s: &str) -> (r: Option<SmartListGrouping>)
        ensures
            match r {
                Some(g) => grouping_name(g) == s@,
                None => s@ != "BY_BOOKS"@ && s@ != "BY_SERIES"@ && s@ != "BY_LIBRARY"@,
            },
    {
        let s = String::from_str(s);
        if s == String::from_str("BY_BOOKS") {
            Some(SmartListGrouping::ByBooks)
        } else if s == String::from_str("BY_SERIES") {
            Some(SmartListGrouping::BySeries)
        } else if s == String::from_str("BY_LIBRARY") {
            Some(SmartListGrouping::ByLibrary)
        } else {
            None
        }
    }
}

/// The message of a stored name that names no variant.
fn no_matching_variant() -> (r: String)
    ensures
        r@ == "Matching variant not found"@,
{
    String::from_str("Matching variant not found")
}

impl std::str::FromStr for SmartListJoiner {
    type Err = String;

    fn from_str(s: &str) -> (r: Result<Self, Self::Err>)
        ensures
            match r {
                Ok(j) => joiner_name(j) == s@,
                Err(e) => s@ != "AND"@ && s@ != "OR"@ && e@ == "Matching variant not found"@,
            },
    {
        match SmartListJoiner::parse(s) {
            Some(j) => Ok(j),
            None => Err(no_matching_variant()),
        }
    }
}

impl std::str::FromStr for SmartListGrouping {
    type Err = String;

    fn from_str(s: &str) -> (r: Result<Self, Self::Err>)
        ensures
            match r {
                Ok(g) => grouping_name(g) == s@,
                Err(e) => s@ != "BY_BOOKS"@ && s@ != "BY_SERIES"@ && s@ != "BY_LIBRARY"@ && e@
                    == "Matching variant not found"@,
            },
    {
        match SmartListGrouping::parse(s) {
            Some(g) => Ok(g),
            None => Err(no_matching_variant()),
        }
    }
}

/// Reading back a stored name gives the joiner or grouping it was stored
/// from.
pub proof fn law_smart_list_names_round_trip(j: SmartListJoiner, g: SmartListGrouping)
    ensures
        forall|k: SmartListJoiner| joiner_name(k) == joiner_name(j) ==> k == j,
        forall|h: SmartListGrouping| grouping_name(h) == grouping_name(g) ==> h == g,
{
    reveal_strlit("AND");
    reveal_strlit("OR");
    reveal_strlit("BY_BOOKS");
    reveal_strlit("BY_SERIES");
    reveal_strlit("BY_LIBRARY");
    assert("AND"@ != "OR"@) by {
        assert("AND"@.len() != "OR"@.len());
    }
    assert("BY_BOOKS"@ != "BY_SERIES"@) by {
        assert("BY_BOOKS"@[3] != "BY_SERIES"@[3]);
    }
    assert("BY_BOOKS"@ != "BY_LIBRARY"@) by {
        assert("BY_BOOKS"@.len() != "BY_LIBRARY"@.len());
    }
    assert("BY_SERIES"@ != "BY_LIBRARY"@) by {
        assert("BY_SERIES"@.len() != "BY_LIBRARY"@.len());
    }
}

} // verus!
